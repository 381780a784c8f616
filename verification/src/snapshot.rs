//! Snapshots of the markdown epics and tickets, keyed by their ids, with
//! the file path each was parsed from. The hosting application mirrors
//! every change to its persistence layer. Rows are selected by project
//! through a path-prefix match on the file path each row carries.

use vstd::prelude::*;

use crate::parser::Epic;
use crate::parser::Ticket;
use crate::strutil::matches_at;
use crate::strutil::spec_matches_at;
use crate::strutil::str_eq;

verus! {

/// One stored epic row.
pub struct EpicRow {
    pub epic_id: String,
    pub title: String,
    pub scope: String,
    pub file_path: String,
}

impl Clone for EpicRow {
    fn clone(&self) -> (r: Self)
        ensures
            r == *self,
    {
        EpicRow {
            epic_id: self.epic_id.clone(),
            title: self.title.clone(),
            scope: self.scope.clone(),
            file_path: self.file_path.clone(),
        }
    }
}

/// One stored ticket row. A ticket outside any epic stores the empty
/// string as its epic id and is never returned by an epic query.
pub struct TicketRow {
    pub ticket_id: String,
    pub epic_id: String,
    pub title: String,
    pub description: String,
    pub status: String,
    pub file_path: String,
}

impl Clone for TicketRow {
    fn clone(&self) -> (r: Self)
        ensures
            r == *self,
    {
        TicketRow {
            ticket_id: self.ticket_id.clone(),
            epic_id: self.epic_id.clone(),
            title: self.title.clone(),
            description: self.description.clone(),
            status: self.status.clone(),
            file_path: self.file_path.clone(),
        }
    }
}

/// Errors of the bulk snapshot synchronisation.
#[derive(Debug, Clone, Copy, PartialEq, Eq, Structural)]
pub enum SnapshotError {
    /// Two epics would share an id; nothing was changed.
    DuplicateEpicId,
    /// Two tickets would share an id; nothing was changed.
    DuplicateTicketId,
}

/// Whether the epic row agrees with the parsed epic it was stored from:
/// same id, title and scope, an empty ticket list, and the given path.
pub open spec fn epic_matches_row(row: EpicRow, e: Epic) -> bool {
    &&& e.id == row.epic_id
    &&& e.title == row.title
    &&& e.scope == row.scope
    &&& e.tickets@.len() == 0
    &&& e.file_path == row.file_path
}

/// Whether the ticket row agrees with the parsed ticket it was stored
/// from: same fields, an empty criteria list.
pub open spec fn ticket_matches_row(row: TicketRow, t: Ticket) -> bool {
    &&& t.id == row.ticket_id
    &&& t.epic == row.epic_id
    &&& t.title == row.title
    &&& t.description == row.description
    &&& t.criteria@.len() == 0
    &&& t.status == row.status
    &&& t.file_path == row.file_path
}

/// The epic rows that survive a project sync: those outside the
/// project's path prefix.
pub open spec fn spec_kept_epics(s: Seq<EpicRow>, prefix: Seq<char>) -> Seq<EpicRow> {
    s.filter(|row: EpicRow| !spec_matches_at(row.file_path@, prefix, 0))
}

/// The ticket rows that survive a project sync.
pub open spec fn spec_kept_tickets(s: Seq<TicketRow>, prefix: Seq<char>) -> Seq<TicketRow> {
    s.filter(|row: TicketRow| !spec_matches_at(row.file_path@, prefix, 0))
}

/// Whether inserting the parsed epics next to the kept rows would make
/// two rows share an epic id.
pub open spec fn spec_epic_dup(kept: Seq<EpicRow>, input: Seq<Epic>) -> bool {
    ||| exists|i: int, j: int| 0 <= i < j < input.len() && input[i].id@ == input[j].id@
    ||| exists|i: int, k: int|
        0 <= i < input.len() && 0 <= k < kept.len() && kept[k].epic_id@ == input[i].id@
}

/// Whether inserting the parsed tickets next to the kept rows would
/// make two rows share a ticket id.
pub open spec fn spec_ticket_dup(kept: Seq<TicketRow>, input: Seq<Ticket>) -> bool {
    ||| exists|i: int, j: int| 0 <= i < j < input.len() && input[i].id@ == input[j].id@
    ||| exists|i: int, k: int|
        0 <= i < input.len() && 0 <= k < kept.len() && kept[k].ticket_id@ == input[i].id@
}

/// Filtering rows with pairwise-distinct epic ids keeps every surviving
/// row a row of the unfiltered sequence, and keeps the ids pairwise
/// distinct.
proof fn lemma_epic_filter_distinct(
    s: Seq<EpicRow>,
    pred: spec_fn(EpicRow) -> bool,
    f: Seq<EpicRow>,
)
    requires
        forall|i: int, j: int| 0 <= i < j < s.len() ==> s[i].epic_id@ != s[j].epic_id@,
        f == s.filter(pred),
    ensures
        forall|i: int|
            0 <= i < f.len() ==> exists|k: int| 0 <= k < s.len() && s[k] == #[trigger] f[i],
        forall|i: int, j: int| 0 <= i < j < f.len() ==> f[i].epic_id@ != f[j].epic_id@,
    decreases s.len(),
{
    reveal(Seq::filter);
    if s.len() > 0 {
        let prefix = s.drop_last();
        let fp = prefix.filter(pred);
        lemma_epic_filter_distinct(prefix, pred, fp);
        assert forall|i: int| 0 <= i < f.len() implies exists|k: int|
            0 <= k < s.len() && s[k] == #[trigger] f[i] by {
            if pred(s.last()) && i == f.len() - 1 {
                assert(s[s.len() - 1] == f[i]);
            } else {
                assert(f[i] == fp[i]);
                let k = choose|k: int| 0 <= k < prefix.len() && prefix[k] == fp[i];
                assert(s[k] == f[i]);
            }
        }
        assert forall|i: int, j: int|
            0 <= i < j < f.len() implies f[i].epic_id@ != f[j].epic_id@ by {
            if pred(s.last()) && j == f.len() - 1 {
                assert(f[i] == fp[i]);
                let k = choose|k: int| 0 <= k < prefix.len() && prefix[k] == fp[i];
                assert(s[k].epic_id@ != s[s.len() - 1].epic_id@);
            } else {
                assert(f[i] == fp[i] && f[j] == fp[j]);
            }
        }
    }
}

/// Filtering rows with pairwise-distinct ticket ids keeps every
/// surviving row a row of the unfiltered sequence, and keeps the ids
/// pairwise distinct.
proof fn lemma_ticket_filter_distinct(
    s: Seq<TicketRow>,
    pred: spec_fn(TicketRow) -> bool,
    f: Seq<TicketRow>,
)
    requires
        forall|i: int, j: int| 0 <= i < j < s.len() ==> s[i].ticket_id@ != s[j].ticket_id@,
        f == s.filter(pred),
    ensures
        forall|i: int|
            0 <= i < f.len() ==> exists|k: int| 0 <= k < s.len() && s[k] == #[trigger] f[i],
        forall|i: int, j: int| 0 <= i < j < f.len() ==> f[i].ticket_id@ != f[j].ticket_id@,
    decreases s.len(),
{
    reveal(Seq::filter);
    if s.len() > 0 {
        let prefix = s.drop_last();
        let fp = prefix.filter(pred);
        lemma_ticket_filter_distinct(prefix, pred, fp);
        assert forall|i: int| 0 <= i < f.len() implies exists|k: int|
            0 <= k < s.len() && s[k] == #[trigger] f[i] by {
            if pred(s.last()) && i == f.len() - 1 {
                assert(s[s.len() - 1] == f[i]);
            } else {
                assert(f[i] == fp[i]);
                let k = choose|k: int| 0 <= k < prefix.len() && prefix[k] == fp[i];
                assert(s[k] == f[i]);
            }
        }
        assert forall|i: int, j: int|
            0 <= i < j < f.len() implies f[i].ticket_id@ != f[j].ticket_id@ by {
            if pred(s.last()) && j == f.len() - 1 {
                assert(f[i] == fp[i]);
                let k = choose|k: int| 0 <= k < prefix.len() && prefix[k] == fp[i];
                assert(s[k].ticket_id@ != s[s.len() - 1].ticket_id@);
            } else {
                assert(f[i] == fp[i] && f[j] == fp[j]);
            }
        }
    }
}

/// Whether some row carries the epic id.
fn rows_contain_epic_id(rows: &Vec<EpicRow>, id: &str) -> (r: bool)
    ensures
        r == exists|k: int| 0 <= k < rows@.len() && rows@[k].epic_id@ == id@,
{
    let mut k: usize = 0;
    while k < rows.len()
        invariant
            k <= rows@.len(),
            forall|j: int| 0 <= j < k ==> rows@[j].epic_id@ != id@,
        decreases rows@.len() - k,
    {
        if str_eq(rows[k].epic_id.as_str(), id) {
            return true;
        }
        k += 1;
    }
    false
}

/// Whether some row carries the ticket id.
fn rows_contain_ticket_id(rows: &Vec<TicketRow>, id: &str) -> (r: bool)
    ensures
        r == exists|k: int| 0 <= k < rows@.len() && rows@[k].ticket_id@ == id@,
{
    let mut k: usize = 0;
    while k < rows.len()
        invariant
            k <= rows@.len(),
            forall|j: int| 0 <= j < k ==> rows@[j].ticket_id@ != id@,
        decreases rows@.len() - k,
    {
        if str_eq(rows[k].ticket_id.as_str(), id) {
            return true;
        }
        k += 1;
    }
    false
}

/// Whether inserting the parsed epics would collide on an epic id.
fn check_epic_dups(kept: &Vec<EpicRow>, input: &Vec<Epic>) -> (r: bool)
    ensures
        r == spec_epic_dup(kept@, input@),
{
    let mut i: usize = 0;
    while i < input.len()
        invariant
            i <= input@.len(),
            forall|a: int, k: int|
                0 <= a < i && 0 <= k < kept@.len() ==> kept@[k].epic_id@ != input@[a].id@,
            forall|a: int, b: int| 0 <= b < a < i ==> input@[b].id@ != input@[a].id@,
        decreases input@.len() - i,
    {
        if rows_contain_epic_id(kept, input[i].id.as_str()) {
            return true;
        }
        let mut j: usize = 0;
        while j < i
            invariant
                j <= i < input@.len(),
                forall|b: int| 0 <= b < j ==> input@[b].id@ != input@[i as int].id@,
            decreases i - j,
        {
            if str_eq(input[j].id.as_str(), input[i].id.as_str()) {
                return true;
            }
            j += 1;
        }
        i += 1;
    }
    false
}

/// Whether inserting the parsed tickets would collide on a ticket id.
fn check_ticket_dups(kept: &Vec<TicketRow>, input: &Vec<Ticket>) -> (r: bool)
    ensures
        r == spec_ticket_dup(kept@, input@),
{
    let mut i: usize = 0;
    while i < input.len()
        invariant
            i <= input@.len(),
            forall|a: int, k: int|
                0 <= a < i && 0 <= k < kept@.len() ==> kept@[k].ticket_id@ != input@[a].id@,
            forall|a: int, b: int| 0 <= b < a < i ==> input@[b].id@ != input@[a].id@,
        decreases input@.len() - i,
    {
        if rows_contain_ticket_id(kept, input[i].id.as_str()) {
            return true;
        }
        let mut j: usize = 0;
        while j < i
            invariant
                j <= i < input@.len(),
                forall|b: int| 0 <= b < j ==> input@[b].id@ != input@[i as int].id@,
            decreases i - j,
        {
            if str_eq(input[j].id.as_str(), input[i].id.as_str()) {
                return true;
            }
            j += 1;
        }
        i += 1;
    }
    false
}

/// The snapshot store.
pub struct SnapshotStore {
    pub epics: Vec<EpicRow>,
    pub tickets: Vec<TicketRow>,
}

impl SnapshotStore {
    /// Whether some epic row carries the id.
    pub open spec fn has_epic(self, id: Seq<char>) -> bool {
        exists|i: int| 0 <= i < self.epics@.len() && self.epics@[i].epic_id@ == id
    }

    /// The index of the epic row carrying the id.
    pub open spec fn epic_index(self, id: Seq<char>) -> int {
        choose|i: int| 0 <= i < self.epics@.len() && self.epics@[i].epic_id@ == id
    }

    /// Whether some ticket row carries the id.
    pub open spec fn has_ticket(self, id: Seq<char>) -> bool {
        exists|i: int| 0 <= i < self.tickets@.len() && self.tickets@[i].ticket_id@ == id
    }

    /// The index of the ticket row carrying the id.
    pub open spec fn ticket_index(self, id: Seq<char>) -> int {
        choose|i: int| 0 <= i < self.tickets@.len() && self.tickets@[i].ticket_id@ == id
    }

    /// Well-formedness: epic and ticket ids unique.
    pub open spec fn wf(self) -> bool {
        &&& forall|i: int, j: int|
            0 <= i < j < self.epics@.len() ==> self.epics@[i].epic_id@ != self.epics@[j].epic_id@
        &&& forall|i: int, j: int|
            0 <= i < j < self.tickets@.len() ==> self.tickets@[i].ticket_id@
                != self.tickets@[j].ticket_id@
    }

    /// Under unique ids, a matching epic index is the one `epic_index`
    /// picks.
    pub proof fn lemma_epic_index(self, id: Seq<char>, i: int)
        requires
            self.wf(),
            0 <= i < self.epics@.len(),
            self.epics@[i].epic_id@ == id,
        ensures
            self.epic_index(id) == i,
            self.has_epic(id),
    {
        assert(self.has_epic(id));
        let j = self.epic_index(id);
        if j < i {
            assert(self.epics@[j].epic_id@ != self.epics@[i].epic_id@);
        } else if j > i {
            assert(self.epics@[i].epic_id@ != self.epics@[j].epic_id@);
        }
    }

    /// Under unique ids, a matching ticket index is the one
    /// `ticket_index` picks.
    pub proof fn lemma_ticket_index(self, id: Seq<char>, i: int)
        requires
            self.wf(),
            0 <= i < self.tickets@.len(),
            self.tickets@[i].ticket_id@ == id,
        ensures
            self.ticket_index(id) == i,
            self.has_ticket(id),
    {
        assert(self.has_ticket(id));
        let j = self.ticket_index(id);
        if j < i {
            assert(self.tickets@[j].ticket_id@ != self.tickets@[i].ticket_id@);
        } else if j > i {
            assert(self.tickets@[i].ticket_id@ != self.tickets@[j].ticket_id@);
        }
    }

    /// Finds the index of the epic row carrying the id.
    fn find_epic(&self, id: &str) -> (r: Option<usize>)
        requires
            self.wf(),
        ensures
            match r {
                Some(i) => i < self.epics@.len() && self.epics@[i as int].epic_id@ == id@
                    && self.epic_index(id@) == i,
                None => !self.has_epic(id@),
            },
    {
        let mut k: usize = 0;
        while k < self.epics.len()
            invariant
                self.wf(),
                k <= self.epics@.len(),
                forall|j: int| 0 <= j < k ==> self.epics@[j].epic_id@ != id@,
            decreases self.epics@.len() - k,
        {
            if str_eq(self.epics[k].epic_id.as_str(), id) {
                proof {
                    self.lemma_epic_index(id@, k as int);
                }
                return Some(k);
            }
            k += 1;
        }
        None
    }

    /// Finds the index of the ticket row carrying the id.
    fn find_ticket(&self, id: &str) -> (r: Option<usize>)
        requires
            self.wf(),
        ensures
            match r {
                Some(i) => i < self.tickets@.len() && self.tickets@[i as int].ticket_id@ == id@
                    && self.ticket_index(id@) == i,
                None => !self.has_ticket(id@),
            },
    {
        let mut k: usize = 0;
        while k < self.tickets.len()
            invariant
                self.wf(),
                k <= self.tickets@.len(),
                forall|j: int| 0 <= j < k ==> self.tickets@[j].ticket_id@ != id@,
            decreases self.tickets@.len() - k,
        {
            if str_eq(self.tickets[k].ticket_id.as_str(), id) {
                proof {
                    self.lemma_ticket_index(id@, k as int);
                }
                return Some(k);
            }
            k += 1;
        }
        None
    }

    /// Creates an empty snapshot store.
    pub fn new() -> (r: Self)
        ensures
            r.wf(),
            r.epics@.len() == 0,
            r.tickets@.len() == 0,
    {
        SnapshotStore { epics: Vec::new(), tickets: Vec::new() }
    }

    /// Stores an epic under the given file path, replacing any row under
    /// the same epic id.
    pub fn upsert_epic(&mut self, epic: &Epic, file_path: &str)
        requires
            old(self).wf(),
        ensures
            final(self).wf(),
            final(self).tickets@ == old(self).tickets@,
            old(self).has_epic(epic.id@) ==> {
                &&& final(self).epics@.len() == old(self).epics@.len()
                &&& forall|j: int|
                    0 <= j < old(self).epics@.len() && j != old(self).epic_index(epic.id@)
                        ==> final(self).epics@[j] == old(self).epics@[j]
                &&& final(self).epics@[old(self).epic_index(epic.id@)].epic_id == epic.id
                &&& final(self).epics@[old(self).epic_index(epic.id@)].title == epic.title
                &&& final(self).epics@[old(self).epic_index(epic.id@)].scope == epic.scope
                &&& final(self).epics@[old(self).epic_index(epic.id@)].file_path@ == file_path@
            },
            !old(self).has_epic(epic.id@) ==> {
                &&& final(self).epics@.len() == old(self).epics@.len() + 1
                &&& forall|j: int|
                    0 <= j < old(self).epics@.len() ==> final(self).epics@[j] == old(
                        self,
                    ).epics@[j]
                &&& final(self).epics@.last().epic_id == epic.id
                &&& final(self).epics@.last().title == epic.title
                &&& final(self).epics@.last().scope == epic.scope
                &&& final(self).epics@.last().file_path@ == file_path@
            },
    {
        let row = EpicRow {
            epic_id: epic.id.clone(),
            title: epic.title.clone(),
            scope: epic.scope.clone(),
            file_path: String::from_str(file_path),
        };
        match self.find_epic(epic.id.as_str()) {
            Some(i) => {
                self.epics.set(i, row);
            },
            None => {
                self.epics.push(row);
                proof {
                    let n = old(self).epics@.len() as int;
                    assert forall|a: int, b: int|
                        0 <= a < b < self.epics@.len() implies self.epics@[a].epic_id@
                        != self.epics@[b].epic_id@ by {
                        if b == n {
                            assert(old(self).epics@[a].epic_id@ != epic.id@);
                        }
                    }
                }
            },
        }
    }

    /// Stores a ticket, replacing any row under the same ticket id.
    pub fn upsert_ticket(&mut self, ticket: &Ticket)
        requires
            old(self).wf(),
        ensures
            final(self).wf(),
            final(self).epics@ == old(self).epics@,
            old(self).has_ticket(ticket.id@) ==> {
                &&& final(self).tickets@.len() == old(self).tickets@.len()
                &&& forall|j: int|
                    0 <= j < old(self).tickets@.len() && j != old(self).ticket_index(ticket.id@)
                        ==> final(self).tickets@[j] == old(self).tickets@[j]
                &&& final(self).tickets@[old(self).ticket_index(ticket.id@)].ticket_id
                    == ticket.id
                &&& final(self).tickets@[old(self).ticket_index(ticket.id@)].epic_id
                    == ticket.epic
                &&& final(self).tickets@[old(self).ticket_index(ticket.id@)].title == ticket.title
                &&& final(self).tickets@[old(self).ticket_index(ticket.id@)].description
                    == ticket.description
                &&& final(self).tickets@[old(self).ticket_index(ticket.id@)].status
                    == ticket.status
                &&& final(self).tickets@[old(self).ticket_index(ticket.id@)].file_path
                    == ticket.file_path
            },
            !old(self).has_ticket(ticket.id@) ==> {
                &&& final(self).tickets@.len() == old(self).tickets@.len() + 1
                &&& forall|j: int|
                    0 <= j < old(self).tickets@.len() ==> final(self).tickets@[j] == old(
                        self,
                    ).tickets@[j]
                &&& final(self).tickets@.last().ticket_id == ticket.id
                &&& final(self).tickets@.last().epic_id == ticket.epic
                &&& final(self).tickets@.last().title == ticket.title
                &&& final(self).tickets@.last().description == ticket.description
                &&& final(self).tickets@.last().status == ticket.status
                &&& final(self).tickets@.last().file_path == ticket.file_path
            },
    {
        let row = TicketRow {
            ticket_id: ticket.id.clone(),
            epic_id: ticket.epic.clone(),
            title: ticket.title.clone(),
            description: ticket.description.clone(),
            status: ticket.status.clone(),
            file_path: ticket.file_path.clone(),
        };
        match self.find_ticket(ticket.id.as_str()) {
            Some(i) => {
                self.tickets.set(i, row);
            },
            None => {
                self.tickets.push(row);
                proof {
                    let n = old(self).tickets@.len() as int;
                    assert forall|a: int, b: int|
                        0 <= a < b < self.tickets@.len() implies self.tickets@[a].ticket_id@
                        != self.tickets@[b].ticket_id@ by {
                        if b == n {
                            assert(old(self).tickets@[a].ticket_id@ != ticket.id@);
                        }
                    }
                }
            },
        }
    }

    /// Removes the epic row carrying the id; a store without it is left
    /// unchanged.
    pub fn delete_epic(&mut self, epic_id: &str)
        requires
            old(self).wf(),
        ensures
            final(self).wf(),
            final(self).tickets@ == old(self).tickets@,
            !old(self).has_epic(epic_id@) ==> *final(self) == *old(self),
            old(self).has_epic(epic_id@) ==> final(self).epics@ == old(self).epics@.remove(
                old(self).epic_index(epic_id@),
            ),
    {
        let i = match self.find_epic(epic_id) {
            Some(i) => i,
            None => {
                return;
            },
        };
        self.epics.remove(i);
        proof {
            let oldr = old(self).epics@;
            assert forall|a: int, b: int|
                0 <= a < b < self.epics@.len() implies self.epics@[a].epic_id@
                != self.epics@[b].epic_id@ by {
                let oa = if a < i { a } else { a + 1 };
                let ob = if b < i { b } else { b + 1 };
                assert(self.epics@[a] == oldr[oa]);
                assert(self.epics@[b] == oldr[ob]);
            }
        }
    }

    /// Removes the ticket row carrying the id; a store without it is
    /// left unchanged.
    pub fn delete_ticket(&mut self, ticket_id: &str)
        requires
            old(self).wf(),
        ensures
            final(self).wf(),
            final(self).epics@ == old(self).epics@,
            !old(self).has_ticket(ticket_id@) ==> *final(self) == *old(self),
            old(self).has_ticket(ticket_id@) ==> final(self).tickets@ == old(
                self,
            ).tickets@.remove(old(self).ticket_index(ticket_id@)),
    {
        let i = match self.find_ticket(ticket_id) {
            Some(i) => i,
            None => {
                return;
            },
        };
        self.tickets.remove(i);
        proof {
            let oldr = old(self).tickets@;
            assert forall|a: int, b: int|
                0 <= a < b < self.tickets@.len() implies self.tickets@[a].ticket_id@
                != self.tickets@[b].ticket_id@ by {
                let oa = if a < i { a } else { a + 1 };
                let ob = if b < i { b } else { b + 1 };
                assert(self.tickets@[a] == oldr[oa]);
                assert(self.tickets@[b] == oldr[ob]);
            }
        }
    }

    /// Replaces the project's snapshot wholesale with the parsed epics
    /// and tickets, atomically: rows under the project's path prefix are
    /// dropped, every parsed epic is inserted under `snapshot_path` and
    /// every parsed ticket under its own file path — unless an inserted
    /// id would collide with another inserted id or a kept row, in which
    /// case nothing changes at all. Epics are inserted before tickets,
    /// so an epic collision is reported over a ticket collision.
    pub fn sync_md_snapshots(
        &mut self,
        project_path: &str,
        snapshot_path: &str,
        epics: &Vec<Epic>,
        tickets: &Vec<Ticket>,
    ) -> (r: Result<(), SnapshotError>)
        requires
            old(self).wf(),
        ensures
            final(self).wf(),
            spec_epic_dup(spec_kept_epics(old(self).epics@, project_path@), epics@) ==> r == Err::<
                (),
                SnapshotError,
            >(SnapshotError::DuplicateEpicId) && *final(self) == *old(self),
            !spec_epic_dup(spec_kept_epics(old(self).epics@, project_path@), epics@)
                && spec_ticket_dup(spec_kept_tickets(old(self).tickets@, project_path@), tickets@)
                ==> r == Err::<(), SnapshotError>(SnapshotError::DuplicateTicketId) && *final(self)
                == *old(self),
            !spec_epic_dup(spec_kept_epics(old(self).epics@, project_path@), epics@)
                && !spec_ticket_dup(
                spec_kept_tickets(old(self).tickets@, project_path@),
                tickets@,
            ) ==> {
                &&& r == Ok::<(), SnapshotError>(())
                &&& final(self).epics@.len() == spec_kept_epics(
                    old(self).epics@,
                    project_path@,
                ).len() + epics@.len()
                &&& forall|j: int|
                    0 <= j < spec_kept_epics(old(self).epics@, project_path@).len()
                        ==> final(self).epics@[j] == spec_kept_epics(
                        old(self).epics@,
                        project_path@,
                    )[j]
                &&& forall|i: int|
                    0 <= i < epics@.len() ==> {
                        let row = final(self).epics@[spec_kept_epics(
                            old(self).epics@,
                            project_path@,
                        ).len() + i];
                        &&& row.epic_id == #[trigger] epics@[i].id
                        &&& row.title == epics@[i].title
                        &&& row.scope == epics@[i].scope
                        &&& row.file_path@ == snapshot_path@
                    }
                &&& final(self).tickets@.len() == spec_kept_tickets(
                    old(self).tickets@,
                    project_path@,
                ).len() + tickets@.len()
                &&& forall|j: int|
                    0 <= j < spec_kept_tickets(old(self).tickets@, project_path@).len()
                        ==> final(self).tickets@[j] == spec_kept_tickets(
                        old(self).tickets@,
                        project_path@,
                    )[j]
                &&& forall|i: int|
                    0 <= i < tickets@.len() ==> {
                        let row = final(self).tickets@[spec_kept_tickets(
                            old(self).tickets@,
                            project_path@,
                        ).len() + i];
                        &&& row.ticket_id == #[trigger] tickets@[i].id
                        &&& row.epic_id == tickets@[i].epic
                        &&& row.title == tickets@[i].title
                        &&& row.description == tickets@[i].description
                        &&& row.status == tickets@[i].status
                        &&& row.file_path == tickets@[i].file_path
                    }
            },
    {
        let ghost pred_e = |row: EpicRow| !spec_matches_at(row.file_path@, project_path@, 0);
        let ghost pred_t = |row: TicketRow| !spec_matches_at(row.file_path@, project_path@, 0);
        let mut kept_epics: Vec<EpicRow> = Vec::new();
        let ne = self.epics.len();
        let mut k: usize = 0;
        proof {
            reveal(Seq::filter);
            assert(self.epics@.subrange(0, 0) =~= Seq::<EpicRow>::empty());
        }
        while k < ne
            invariant
                ne == self.epics@.len(),
                k <= ne,
                kept_epics@ == self.epics@.subrange(0, k as int).filter(pred_e),
                pred_e == (|row: EpicRow| !spec_matches_at(row.file_path@, project_path@, 0)),
            decreases ne - k,
        {
            let ghost prefix = self.epics@.subrange(0, k as int);
            let ghost prefix1 = self.epics@.subrange(0, k as int + 1);
            proof {
                reveal(Seq::filter);
                assert(prefix1.drop_last() =~= prefix);
                assert(prefix1.last() == self.epics@[k as int]);
            }
            if !matches_at(self.epics[k].file_path.as_str(), project_path, 0) {
                kept_epics.push(self.epics[k].clone());
            }
            k += 1;
        }
        proof {
            assert(self.epics@.subrange(0, ne as int) =~= self.epics@);
            lemma_epic_filter_distinct(self.epics@, pred_e, kept_epics@);
        }
        let mut kept_tickets: Vec<TicketRow> = Vec::new();
        let nt = self.tickets.len();
        let mut k2: usize = 0;
        proof {
            reveal(Seq::filter);
            assert(self.tickets@.subrange(0, 0) =~= Seq::<TicketRow>::empty());
        }
        while k2 < nt
            invariant
                nt == self.tickets@.len(),
                k2 <= nt,
                kept_tickets@ == self.tickets@.subrange(0, k2 as int).filter(pred_t),
                pred_t == (|row: TicketRow| !spec_matches_at(row.file_path@, project_path@, 0)),
                self.wf(),
            decreases nt - k2,
        {
            let ghost prefix = self.tickets@.subrange(0, k2 as int);
            let ghost prefix1 = self.tickets@.subrange(0, k2 as int + 1);
            proof {
                reveal(Seq::filter);
                assert(prefix1.drop_last() =~= prefix);
                assert(prefix1.last() == self.tickets@[k2 as int]);
            }
            if !matches_at(self.tickets[k2].file_path.as_str(), project_path, 0) {
                kept_tickets.push(self.tickets[k2].clone());
            }
            k2 += 1;
        }
        proof {
            assert(self.tickets@.subrange(0, nt as int) =~= self.tickets@);
            lemma_ticket_filter_distinct(self.tickets@, pred_t, kept_tickets@);
        }
        if check_epic_dups(&kept_epics, epics) {
            return Err(SnapshotError::DuplicateEpicId);
        }
        if check_ticket_dups(&kept_tickets, tickets) {
            return Err(SnapshotError::DuplicateTicketId);
        }
        let ghost kept_e_seq = kept_epics@;
        let ghost kept_t_seq = kept_tickets@;
        let mut new_epics = kept_epics;
        let mut i: usize = 0;
        while i < epics.len()
            invariant
                i <= epics@.len(),
                new_epics@.len() == kept_e_seq.len() + i,
                forall|j: int| 0 <= j < kept_e_seq.len() ==> new_epics@[j] == kept_e_seq[j],
                forall|a: int|
                    0 <= a < i ==> {
                        let row = new_epics@[kept_e_seq.len() + a];
                        &&& row.epic_id == #[trigger] epics@[a].id
                        &&& row.title == epics@[a].title
                        &&& row.scope == epics@[a].scope
                        &&& row.file_path@ == snapshot_path@
                    },
            decreases epics@.len() - i,
        {
            let e = &epics[i];
            new_epics.push(
                EpicRow {
                    epic_id: e.id.clone(),
                    title: e.title.clone(),
                    scope: e.scope.clone(),
                    file_path: String::from_str(snapshot_path),
                },
            );
            proof {
                assert(new_epics@.last() == new_epics@[kept_e_seq.len() + i as int]);
                assert(new_epics@.last().epic_id == epics@[i as int].id);
            }
            i += 1;
        }
        let mut new_tickets = kept_tickets;
        let mut i2: usize = 0;
        while i2 < tickets.len()
            invariant
                i2 <= tickets@.len(),
                new_tickets@.len() == kept_t_seq.len() + i2,
                forall|j: int| 0 <= j < kept_t_seq.len() ==> new_tickets@[j] == kept_t_seq[j],
                forall|a: int|
                    0 <= a < i2 ==> {
                        let row = new_tickets@[kept_t_seq.len() + a];
                        &&& row.ticket_id == #[trigger] tickets@[a].id
                        &&& row.epic_id == tickets@[a].epic
                        &&& row.title == tickets@[a].title
                        &&& row.description == tickets@[a].description
                        &&& row.status == tickets@[a].status
                        &&& row.file_path == tickets@[a].file_path
                    },
            decreases tickets@.len() - i2,
        {
            let t = &tickets[i2];
            new_tickets.push(
                TicketRow {
                    ticket_id: t.id.clone(),
                    epic_id: t.epic.clone(),
                    title: t.title.clone(),
                    description: t.description.clone(),
                    status: t.status.clone(),
                    file_path: t.file_path.clone(),
                },
            );
            proof {
                assert(new_tickets@.last() == new_tickets@[kept_t_seq.len() + i2 as int]);
                assert(new_tickets@.last().ticket_id == tickets@[i2 as int].id);
            }
            i2 += 1;
        }
        self.epics = new_epics;
        self.tickets = new_tickets;
        proof {
            assert forall|a: int, b: int|
                0 <= a < b < self.epics@.len() implies self.epics@[a].epic_id@
                != self.epics@[b].epic_id@ by {
                let nk = kept_e_seq.len() as int;
                if b < nk {
                    assert(self.epics@[a] == kept_e_seq[a]);
                    assert(self.epics@[b] == kept_e_seq[b]);
                    assert(kept_e_seq[a].epic_id@ != kept_e_seq[b].epic_id@);
                } else if a < nk {
                    assert(self.epics@[a] == kept_e_seq[a]);
                    assert(self.epics@[b].epic_id == epics@[b - nk].id);
                    assert(!(kept_e_seq[a].epic_id@ == epics@[b - nk].id@));
                } else {
                    assert(self.epics@[a].epic_id == epics@[a - nk].id);
                    assert(self.epics@[b].epic_id == epics@[b - nk].id);
                    assert(epics@[a - nk].id@ != epics@[b - nk].id@);
                }
            }
            assert forall|a: int, b: int|
                0 <= a < b < self.tickets@.len() implies self.tickets@[a].ticket_id@
                != self.tickets@[b].ticket_id@ by {
                let nk = kept_t_seq.len() as int;
                if b < nk {
                    assert(self.tickets@[a] == kept_t_seq[a]);
                    assert(self.tickets@[b] == kept_t_seq[b]);
                    assert(kept_t_seq[a].ticket_id@ != kept_t_seq[b].ticket_id@);
                } else if a < nk {
                    assert(self.tickets@[a] == kept_t_seq[a]);
                    assert(self.tickets@[b].ticket_id == tickets@[b - nk].id);
                    assert(!(kept_t_seq[a].ticket_id@ == tickets@[b - nk].id@));
                } else {
                    assert(self.tickets@[a].ticket_id == tickets@[a - nk].id);
                    assert(self.tickets@[b].ticket_id == tickets@[b - nk].id);
                    assert(epics@ == epics@ && tickets@[a - nk].id@ != tickets@[b - nk].id@);
                }
            }
        }
        Ok(())
    }

    /// Returns the epics of the project: every epic row whose file path
    /// starts with the project path, in storage order, each with an
    /// empty ticket list.
    pub fn get_all_epics_snapshot(&self, project_path: &str) -> (r: Vec<Epic>)
        ensures
            r@.len() == self.epics@.filter(
                |row: EpicRow| spec_matches_at(row.file_path@, project_path@, 0),
            ).len(),
            forall|i: int|
                0 <= i < r@.len() ==> epic_matches_row(
                    self.epics@.filter(
                        |row: EpicRow| spec_matches_at(row.file_path@, project_path@, 0),
                    )[i],
                    #[trigger] r@[i],
                ),
    {
        let ghost pred = |row: EpicRow| spec_matches_at(row.file_path@, project_path@, 0);
        let mut out: Vec<Epic> = Vec::new();
        let n = self.epics.len();
        let mut k: usize = 0;
        proof {
            reveal(Seq::filter);
            assert(self.epics@.subrange(0, 0) =~= Seq::<EpicRow>::empty());
        }
        while k < n
            invariant
                n == self.epics@.len(),
                k <= n,
                out@.len() == self.epics@.subrange(0, k as int).filter(pred).len(),
                forall|i: int|
                    0 <= i < out@.len() ==> epic_matches_row(
                        self.epics@.subrange(0, k as int).filter(pred)[i],
                        #[trigger] out@[i],
                    ),
                pred == (|row: EpicRow| spec_matches_at(row.file_path@, project_path@, 0)),
            decreases n - k,
        {
            let ghost prefix = self.epics@.subrange(0, k as int);
            let ghost prefix1 = self.epics@.subrange(0, k as int + 1);
            proof {
                reveal(Seq::filter);
                assert(prefix1.drop_last() =~= prefix);
                assert(prefix1.last() == self.epics@[k as int]);
            }
            let row = &self.epics[k];
            if matches_at(row.file_path.as_str(), project_path, 0) {
                out.push(
                    Epic {
                        id: row.epic_id.clone(),
                        title: row.title.clone(),
                        scope: row.scope.clone(),
                        tickets: Vec::new(),
                        file_path: row.file_path.clone(),
                    },
                );
            }
            k += 1;
        }
        proof {
            assert(self.epics@.subrange(0, n as int) =~= self.epics@);
        }
        out
    }

    /// Returns the tickets of the project: every ticket row whose file
    /// path starts with the project path, in storage order, each with an
    /// empty criteria list.
    pub fn get_all_tickets_snapshot(&self, project_path: &str) -> (r: Vec<Ticket>)
        ensures
            r@.len() == self.tickets@.filter(
                |row: TicketRow| spec_matches_at(row.file_path@, project_path@, 0),
            ).len(),
            forall|i: int|
                0 <= i < r@.len() ==> ticket_matches_row(
                    self.tickets@.filter(
                        |row: TicketRow| spec_matches_at(row.file_path@, project_path@, 0),
                    )[i],
                    #[trigger] r@[i],
                ),
    {
        let ghost pred = |row: TicketRow| spec_matches_at(row.file_path@, project_path@, 0);
        let mut out: Vec<Ticket> = Vec::new();
        let n = self.tickets.len();
        let mut k: usize = 0;
        proof {
            reveal(Seq::filter);
            assert(self.tickets@.subrange(0, 0) =~= Seq::<TicketRow>::empty());
        }
        while k < n
            invariant
                n == self.tickets@.len(),
                k <= n,
                out@.len() == self.tickets@.subrange(0, k as int).filter(pred).len(),
                forall|i: int|
                    0 <= i < out@.len() ==> ticket_matches_row(
                        self.tickets@.subrange(0, k as int).filter(pred)[i],
                        #[trigger] out@[i],
                    ),
                pred == (|row: TicketRow| spec_matches_at(row.file_path@, project_path@, 0)),
            decreases n - k,
        {
            let ghost prefix = self.tickets@.subrange(0, k as int);
            let ghost prefix1 = self.tickets@.subrange(0, k as int + 1);
            proof {
                reveal(Seq::filter);
                assert(prefix1.drop_last() =~= prefix);
                assert(prefix1.last() == self.tickets@[k as int]);
            }
            let row = &self.tickets[k];
            if matches_at(row.file_path.as_str(), project_path, 0) {
                out.push(
                    Ticket {
                        id: row.ticket_id.clone(),
                        epic: row.epic_id.clone(),
                        title: row.title.clone(),
                        description: row.description.clone(),
                        criteria: Vec::new(),
                        status: row.status.clone(),
                        file_path: row.file_path.clone(),
                    },
                );
            }
            k += 1;
        }
        proof {
            assert(self.tickets@.subrange(0, n as int) =~= self.tickets@);
        }
        out
    }

    /// Returns the tickets filed under the epic, in storage order, each
    /// with an empty criteria list. The empty epic id matches nothing.
    pub fn get_tickets_by_epic(&self, epic_id: &str) -> (r: Vec<Ticket>)
        ensures
            r@.len() == self.tickets@.filter(
                |row: TicketRow| row.epic_id@ == epic_id@ && row.epic_id@.len() > 0,
            ).len(),
            forall|i: int|
                0 <= i < r@.len() ==> ticket_matches_row(
                    self.tickets@.filter(
                        |row: TicketRow| row.epic_id@ == epic_id@ && row.epic_id@.len() > 0,
                    )[i],
                    #[trigger] r@[i],
                ),
    {
        let ghost pred = |row: TicketRow| row.epic_id@ == epic_id@ && row.epic_id@.len() > 0;
        let mut out: Vec<Ticket> = Vec::new();
        let n = self.tickets.len();
        let mut k: usize = 0;
        proof {
            reveal(Seq::filter);
            assert(self.tickets@.subrange(0, 0) =~= Seq::<TicketRow>::empty());
        }
        while k < n
            invariant
                n == self.tickets@.len(),
                k <= n,
                out@.len() == self.tickets@.subrange(0, k as int).filter(pred).len(),
                forall|i: int|
                    0 <= i < out@.len() ==> ticket_matches_row(
                        self.tickets@.subrange(0, k as int).filter(pred)[i],
                        #[trigger] out@[i],
                    ),
                pred == (|row: TicketRow| row.epic_id@ == epic_id@ && row.epic_id@.len() > 0),
            decreases n - k,
        {
            let ghost prefix = self.tickets@.subrange(0, k as int);
            let ghost prefix1 = self.tickets@.subrange(0, k as int + 1);
            proof {
                reveal(Seq::filter);
                assert(prefix1.drop_last() =~= prefix);
                assert(prefix1.last() == self.tickets@[k as int]);
            }
            let row = &self.tickets[k];
            if str_eq(row.epic_id.as_str(), epic_id) && row.epic_id.as_str().unicode_len() > 0 {
                out.push(
                    Ticket {
                        id: row.ticket_id.clone(),
                        epic: row.epic_id.clone(),
                        title: row.title.clone(),
                        description: row.description.clone(),
                        criteria: Vec::new(),
                        status: row.status.clone(),
                        file_path: row.file_path.clone(),
                    },
                );
            }
            k += 1;
        }
        proof {
            assert(self.tickets@.subrange(0, n as int) =~= self.tickets@);
        }
        out
    }
}

} // verus!
