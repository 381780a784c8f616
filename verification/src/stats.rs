//! Project statistics computed from the parsed tickets and epics: the
//! counts the settings row is synchronised to, and the initial counters
//! scanned from existing ids.

use vstd::prelude::*;

use crate::parser::Epic;
use crate::parser::Ticket;
use crate::strutil::is_digit;
use crate::strutil::is_digit_char;
use crate::strutil::lemma_digits_val_bound;
use crate::strutil::matches_at;
use crate::strutil::spec_digits_val;
use crate::strutil::spec_pow10;
use crate::strutil::str_eq;

verus! {

/// The counts a full synchronisation writes to a project's settings.
#[derive(Debug, Clone, Copy, PartialEq, Eq, Structural)]
pub struct StatsSummary {
    pub total_epics: i64,
    pub completed_epics: i64,
    pub total_tickets: i64,
    pub backlog_tickets: i64,
    pub inprogress_tickets: i64,
    pub done_tickets: i64,
}

/// How many tickets carry the status.
pub open spec fn spec_status_count(tickets: Seq<Ticket>, status: Seq<char>) -> int {
    tickets.filter(|t: Ticket| t.status@ == status).len() as int
}

/// An epic is completed when it has at least one ticket and every one
/// of its tickets is done.
pub open spec fn spec_epic_completed(tickets: Seq<Ticket>, e: Epic) -> bool {
    &&& exists|i: int| 0 <= i < tickets.len() && tickets[i].epic@ == e.id@
    &&& forall|i: int|
        0 <= i < tickets.len() && tickets[i].epic@ == e.id@ ==> tickets[i].status@ == "done"@
}

/// Counts the tickets carrying the status.
fn count_status(tickets: &Vec<Ticket>, status: &str) -> (r: usize)
    ensures
        r == spec_status_count(tickets@, status@),
{
    let ghost pred = |t: Ticket| t.status@ == status@;
    let mut count: usize = 0;
    let n = tickets.len();
    let mut k: usize = 0;
    proof {
        reveal(Seq::filter);
        assert(tickets@.subrange(0, 0) =~= Seq::<Ticket>::empty());
    }
    while k < n
        invariant
            n == tickets@.len(),
            k <= n,
            count == tickets@.subrange(0, k as int).filter(pred).len(),
            count <= k,
            pred == (|t: Ticket| t.status@ == status@),
        decreases n - k,
    {
        let ghost prefix = tickets@.subrange(0, k as int);
        let ghost prefix1 = tickets@.subrange(0, k as int + 1);
        proof {
            reveal(Seq::filter);
            assert(prefix1.drop_last() =~= prefix);
            assert(prefix1.last() == tickets@[k as int]);
        }
        if str_eq(tickets[k].status.as_str(), status) {
            count = count + 1;
        }
        k += 1;
    }
    proof {
        assert(tickets@.subrange(0, n as int) =~= tickets@);
    }
    count
}

/// Whether the epic is completed: it has tickets and all are done.
fn epic_completed(tickets: &Vec<Ticket>, e: &Epic) -> (r: bool)
    ensures
        r == spec_epic_completed(tickets@, *e),
{
    let mut found = false;
    let n = tickets.len();
    let mut k: usize = 0;
    while k < n
        invariant
            n == tickets@.len(),
            k <= n,
            found == exists|i: int| 0 <= i < k && tickets@[i].epic@ == e.id@,
            forall|i: int|
                0 <= i < k && tickets@[i].epic@ == e.id@ ==> tickets@[i].status@ == "done"@,
        decreases n - k,
    {
        if str_eq(tickets[k].epic.as_str(), e.id.as_str()) {
            if !str_eq(tickets[k].status.as_str(), "done") {
                return false;
            }
            found = true;
        }
        k += 1;
    }
    found
}

/// Computes the statistics of a project from its parsed epics and
/// tickets: the ticket totals by status, and the number of epics whose
/// tickets exist and are all done.
pub fn compute_stats(epics: &Vec<Epic>, tickets: &Vec<Ticket>) -> (r: StatsSummary)
    requires
        epics@.len() <= i64::MAX,
        tickets@.len() <= i64::MAX,
    ensures
        r.total_epics == epics@.len(),
        r.completed_epics == epics@.filter(
            |e: Epic| spec_epic_completed(tickets@, e),
        ).len(),
        r.total_tickets == tickets@.len(),
        r.backlog_tickets == spec_status_count(tickets@, "backlog"@),
        r.inprogress_tickets == spec_status_count(tickets@, "in_progress"@),
        r.done_tickets == spec_status_count(tickets@, "done"@),
{
    let ghost pred = |e: Epic| spec_epic_completed(tickets@, e);
    let mut completed: usize = 0;
    let n = epics.len();
    let mut k: usize = 0;
    proof {
        reveal(Seq::filter);
        assert(epics@.subrange(0, 0) =~= Seq::<Epic>::empty());
    }
    while k < n
        invariant
            n == epics@.len(),
            k <= n,
            completed == epics@.subrange(0, k as int).filter(pred).len(),
            completed <= k,
            pred == (|e: Epic| spec_epic_completed(tickets@, e)),
        decreases n - k,
    {
        let ghost prefix = epics@.subrange(0, k as int);
        let ghost prefix1 = epics@.subrange(0, k as int + 1);
        proof {
            reveal(Seq::filter);
            assert(prefix1.drop_last() =~= prefix);
            assert(prefix1.last() == epics@[k as int]);
        }
        if epic_completed(tickets, &epics[k]) {
            completed = completed + 1;
        }
        k += 1;
    }
    proof {
        assert(epics@.subrange(0, n as int) =~= epics@);
        epics@.lemma_filter_len(pred);
        tickets@.lemma_filter_len(|t: Ticket| t.status@ == "backlog"@);
        tickets@.lemma_filter_len(|t: Ticket| t.status@ == "in_progress"@);
        tickets@.lemma_filter_len(|t: Ticket| t.status@ == "done"@);
    }
    let backlog = count_status(tickets, "backlog");
    let inprogress = count_status(tickets, "in_progress");
    let done = count_status(tickets, "done");
    StatsSummary {
        total_epics: epics.len() as i64,
        completed_epics: completed as i64,
        total_tickets: tickets.len() as i64,
        backlog_tickets: backlog as i64,
        inprogress_tickets: inprogress as i64,
        done_tickets: done as i64,
    }
}

/// The number an id carries under the prefix: the id must be the
/// prefix followed by one to eighteen digits (larger runs, or any other
/// shape, carry none — eighteen digits always fit the counter type).
pub open spec fn spec_id_number(id: Seq<char>, prefix: Seq<char>) -> Option<int> {
    if id.len() > prefix.len() && id.len() - prefix.len() <= 18 && id.subrange(
        0,
        prefix.len() as int,
    ) == prefix && (forall|i: int| prefix.len() <= i < id.len() ==> is_digit(id[i])) {
        Some(spec_digits_val(id.subrange(prefix.len() as int, id.len() as int)))
    } else {
        None
    }
}

/// Parses the number an id carries under the prefix.
fn parse_id_number(id: &str, prefix: &str) -> (r: Option<i64>)
    ensures
        match r {
            Some(v) => spec_id_number(id@, prefix@) == Some(v as int) && v >= 0,
            None => spec_id_number(id@, prefix@) is None,
        },
{
    if !matches_at(id, prefix, 0) {
        return None;
    }
    let n = id.unicode_len();
    let plen = prefix.unicode_len();
    if n <= plen || n - plen > 18 {
        return None;
    }
    let mut k: usize = plen;
    while k < n
        invariant
            n == id@.len(),
            plen == prefix@.len(),
            plen <= k <= n,
            forall|i: int| plen <= i < k ==> is_digit(id@[i]),
        decreases n - k,
    {
        let c = id.get_char(k);
        if !is_digit_char(c) {
            proof {
                assert(c == id@[k as int]);
                assert(!is_digit(id@[k as int]));
                assert(exists|i: int|
                    prefix@.len() <= i < id@.len() && !(#[trigger] is_digit(id@[i])));
            }
            return None;
        }
        k += 1;
    }
    proof {
        lemma_pow10_18();
    }
    let mut acc: i64 = 0;
    let mut j: usize = plen;
    proof {
        assert(id@.subrange(plen as int, plen as int) =~= Seq::<char>::empty());
    }
    while j < n
        invariant
            n == id@.len(),
            plen == prefix@.len(),
            plen <= j <= n,
            n - plen <= 18,
            forall|i: int| plen <= i < n ==> is_digit(id@[i]),
            acc == spec_digits_val(id@.subrange(plen as int, j as int)),
            0 <= acc < spec_pow10((j - plen) as nat),
            spec_pow10(18) == 1000000000000000000,
        decreases n - j,
    {
        let ghost part = id@.subrange(plen as int, j as int);
        let ghost part1 = id@.subrange(plen as int, j as int + 1);
        proof {
            assert(part1.drop_last() =~= part);
            assert(part1.last() == id@[j as int]);
            lemma_digits_val_bound(part1);
            lemma_pow10_bound((j + 1 - plen) as nat);
        }
        let c = id.get_char(j);
        let d: i64 = digit_value(c);
        acc = acc * 10 + d;
        j += 1;
    }
    Some(acc)
}

/// Ten to the eighteenth, spelled out.
proof fn lemma_pow10_18()
    ensures
        spec_pow10(18) == 1000000000000000000,
{
    reveal_with_fuel(spec_pow10, 19);
}

/// Powers of ten grow with the exponent, up to the eighteenth.
proof fn lemma_pow10_bound(n: nat)
    requires
        n <= 18,
    ensures
        spec_pow10(n) <= spec_pow10(18),
    decreases 18 - n,
{
    if n < 18 {
        lemma_pow10_bound(n + 1);
        assert(spec_pow10(n + 1) == 10 * spec_pow10(n));
        lemma_pow10_pos(n);
    }
}

/// Powers of ten are positive.
proof fn lemma_pow10_pos(n: nat)
    ensures
        spec_pow10(n) >= 1,
    decreases n,
{
    if n > 0 {
        lemma_pow10_pos((n - 1) as nat);
    }
}

/// The numeric value of a digit character.
fn digit_value(c: char) -> (r: i64)
    requires
        is_digit(c),
    ensures
        r == crate::strutil::spec_digit_val(c),
        0 <= r <= 9,
{
    let code = c as u32;
    let zero = '0' as u32;
    (code - zero) as i64
}

/// The value an id contributes to a counter scan: its number, or zero.
pub open spec fn spec_counter_of(id: Seq<char>, prefix: Seq<char>) -> int {
    match spec_id_number(id, prefix) {
        Some(v) => v,
        None => 0,
    }
}

/// The largest epic number among the parsed epics.
pub open spec fn spec_max_epic_number(epics: Seq<Epic>) -> int
    decreases epics.len(),
{
    if epics.len() == 0 {
        0
    } else {
        let rest = spec_max_epic_number(epics.drop_last());
        let last = spec_counter_of(epics.last().id@, "EPIC-"@);
        if last > rest {
            last
        } else {
            rest
        }
    }
}

/// The largest ticket number among the parsed tickets.
pub open spec fn spec_max_ticket_number(tickets: Seq<Ticket>) -> int
    decreases tickets.len(),
{
    if tickets.len() == 0 {
        0
    } else {
        let rest = spec_max_ticket_number(tickets.drop_last());
        let last = spec_counter_of(tickets.last().id@, "T-"@);
        if last > rest {
            last
        } else {
            rest
        }
    }
}

/// Scans the parsed files for the largest epic and ticket numbers: the
/// initial values of a project's id counters.
pub fn initial_counters(epics: &Vec<Epic>, tickets: &Vec<Ticket>) -> (r: (i64, i64))
    ensures
        r.0 == spec_max_epic_number(epics@),
        r.1 == spec_max_ticket_number(tickets@),
{
    let mut max_epic: i64 = 0;
    let mut k: usize = 0;
    proof {
        assert(epics@.subrange(0, 0) =~= Seq::<Epic>::empty());
    }
    while k < epics.len()
        invariant
            k <= epics@.len(),
            max_epic == spec_max_epic_number(epics@.subrange(0, k as int)),
            max_epic >= 0,
        decreases epics@.len() - k,
    {
        let ghost part1 = epics@.subrange(0, k as int + 1);
        proof {
            assert(part1.drop_last() =~= epics@.subrange(0, k as int));
            assert(part1.last() == epics@[k as int]);
        }
        if let Some(v) = parse_id_number(epics[k].id.as_str(), "EPIC-") {
            if v > max_epic {
                max_epic = v;
            }
        }
        k += 1;
    }
    proof {
        assert(epics@.subrange(0, epics@.len() as int) =~= epics@);
    }
    let mut max_ticket: i64 = 0;
    let mut j: usize = 0;
    proof {
        assert(tickets@.subrange(0, 0) =~= Seq::<Ticket>::empty());
    }
    while j < tickets.len()
        invariant
            j <= tickets@.len(),
            max_ticket == spec_max_ticket_number(tickets@.subrange(0, j as int)),
            max_ticket >= 0,
        decreases tickets@.len() - j,
    {
        let ghost part1 = tickets@.subrange(0, j as int + 1);
        proof {
            assert(part1.drop_last() =~= tickets@.subrange(0, j as int));
            assert(part1.last() == tickets@[j as int]);
        }
        if let Some(v) = parse_id_number(tickets[j].id.as_str(), "T-") {
            if v > max_ticket {
                max_ticket = v;
            }
        }
        j += 1;
    }
    proof {
        assert(tickets@.subrange(0, tickets@.len() as int) =~= tickets@);
    }
    (max_epic, max_ticket)
}

} // verus!
