//! Behaviour of the table-row rewrite, the cell splitter, the counter
//! scan, the statistics write-back, the watcher routing and the output
//! throttle.

use m2k_core::Epic;
use m2k_core::MdChange;
use m2k_core::Ticket;
use m2k_core::emit_delay_for;
use m2k_core::init_database;
use m2k_core::initial_counters;
use m2k_core::is_markdown_path;
use m2k_core::md_change_route;
use m2k_core::should_emit;
use m2k_core::split_cells;
use m2k_core::update_epic_ticket_status;

fn mk_epic(id: &str) -> Epic {
    Epic {
        id: id.to_string(),
        title: String::new(),
        scope: String::new(),
        tickets: Vec::new(),
        file_path: String::new(),
    }
}

fn mk_ticket(id: &str) -> Ticket {
    Ticket {
        id: id.to_string(),
        title: String::new(),
        epic: String::new(),
        description: String::new(),
        criteria: Vec::new(),
        status: "backlog".to_string(),
        file_path: String::new(),
    }
}

#[test]
fn cells_split_at_pipes() {
    assert_eq!(split_cells("a|b|c"), vec!["a", "b", "c"]);
    assert_eq!(split_cells("| x | y |"), vec!["", " x ", " y ", ""]);
    assert_eq!(split_cells("no pipes"), vec!["no pipes"]);
    assert_eq!(split_cells(""), vec![""]);
}

#[test]
fn ticket_row_is_rewritten_to_the_new_status() {
    let content = "# EPIC-001: Things\n\
## Tickets\n\
| T-001 | prepare | backlog |\n\
| T-002 | arrange | backlog |\n";
    let updated = update_epic_ticket_status(content, "T-001", "done");
    assert_eq!(
        updated,
        "# EPIC-001: Things\n\
## Tickets\n\
| T-001 | prepare | done |\n\
| T-002 | arrange | backlog |\n"
    );
}

#[test]
fn rows_of_other_tickets_and_non_table_lines_are_kept() {
    let content = "T-009 is mentioned here outside a table\n| T-009 |";
    // The prose line mentions the id but is no table row; the short
    // table row has too few cells for the rewrite.
    let updated = update_epic_ticket_status(content, "T-009", "done");
    assert_eq!(updated, content);
}

#[test]
fn counters_scan_the_largest_ids() {
    let epics = vec![mk_epic("EPIC-002"), mk_epic("EPIC-011"), mk_epic("unnumbered")];
    let tickets = vec![mk_ticket("T-004"), mk_ticket("T-104"), mk_ticket("T-X")];
    let (epic_counter, ticket_counter) = initial_counters(&epics, &tickets);
    assert_eq!(epic_counter, 11);
    assert_eq!(ticket_counter, 104);
    let none: Vec<Epic> = Vec::new();
    let no_tickets: Vec<Ticket> = Vec::new();
    assert_eq!(initial_counters(&none, &no_tickets), (0, 0));
}

#[test]
fn stats_write_back_updates_the_settings_row() {
    let mut reg = init_database();
    reg.init_project_settings("/p", 3, 4);
    let stats = m2k_core::StatsSummary {
        total_epics: 2,
        completed_epics: 1,
        total_tickets: 7,
        backlog_tickets: 3,
        inprogress_tickets: 2,
        done_tickets: 2,
    };
    reg.set_project_stats("/p", &stats);
    let s = reg.get_project_settings("/p").unwrap();
    assert_eq!(s.epic_counter, 3);
    assert_eq!(s.ticket_counter, 4);
    assert_eq!(s.total_epics, 2);
    assert_eq!(s.completed_epics, 1);
    assert_eq!(s.total_tickets, 7);
    assert_eq!(s.backlog_tickets, 3);
    assert_eq!(s.inprogress_tickets, 2);
    assert_eq!(s.done_tickets, 2);
    // Without a settings row nothing happens.
    reg.set_project_stats("/q", &stats);
    assert!(reg.get_project_settings("/q").is_none());
}

#[test]
fn watcher_reports_markdown_files_only() {
    assert!(is_markdown_path("/p/.m2k/backlog/T-001.md"));
    assert!(!is_markdown_path("/p/.m2k/resources/pic.png"));
    assert!(!is_markdown_path("md"));
}

#[test]
fn watcher_routes_by_folder() {
    assert_eq!(md_change_route("/p/.m2k/epics/EPIC-001.md"), MdChange::EpicFile);
    assert_eq!(
        md_change_route("/p/.m2k/backlog/T-001.md"),
        MdChange::TicketFile("backlog".to_string())
    );
    assert_eq!(
        md_change_route("/p/.m2k/inprogress/T-001.md"),
        MdChange::TicketFile("inprogress".to_string())
    );
    assert_eq!(
        md_change_route("/p/.m2k/done/T-001.md"),
        MdChange::TicketFile("done".to_string())
    );
    assert_eq!(md_change_route("/p/readme.md"), MdChange::Other);
}

#[test]
fn output_throttle_by_throughput() {
    assert_eq!(emit_delay_for(10), 16);
    assert_eq!(emit_delay_for(100_000), 33);
    assert_eq!(emit_delay_for(500_000), 100);
    // Interactive output is emitted immediately.
    assert!(should_emit(10, true, 0, 1));
    // Quiet output without a newline waits for the delay.
    assert!(!should_emit(10, false, 15, 1));
    assert!(should_emit(10, false, 16, 1));
    // A heavy stream waits longer but a huge batch always flushes.
    assert!(!should_emit(500_000, true, 99, 1));
    assert!(should_emit(500_000, false, 0, 40_000));
}
