//! Behaviour of the project registry, its settings statistics, the
//! snapshot store and the terminal-session registry.

use m2k_core::Epic;
use m2k_core::PtyError;
use m2k_core::PtyRegistry;
use m2k_core::RegistryError;
use m2k_core::SnapshotError;
use m2k_core::SnapshotStore;
use m2k_core::Ticket;
use m2k_core::init_database;

fn epic(id: &str, title: &str, path: &str) -> Epic {
    Epic {
        id: id.to_string(),
        title: title.to_string(),
        scope: String::new(),
        tickets: Vec::new(),
        file_path: path.to_string(),
    }
}

fn ticket(id: &str, epic: &str, status: &str, path: &str) -> Ticket {
    Ticket {
        id: id.to_string(),
        title: format!("title of {}", id),
        epic: epic.to_string(),
        description: String::new(),
        criteria: Vec::new(),
        status: status.to_string(),
        file_path: path.to_string(),
    }
}

#[test]
fn projects_register_under_unique_paths() {
    let mut reg = init_database();
    let p = reg.add_project("One", "/p/one", 10).expect("fresh path");
    assert_eq!(p.id, 1);
    assert_eq!(p.name, "One");
    assert_eq!(p.path, "/p/one");
    assert_eq!(p.created_at, 10);
    assert_eq!(p.last_accessed, 10);
    assert!(matches!(
        reg.add_project("Two", "/p/one", 11),
        Err(RegistryError::DuplicatePath)
    ));
    let q = reg.add_project("Two", "/p/two", 12).expect("fresh path");
    assert_eq!(q.id, 2);
    assert_eq!(reg.get_all_projects().len(), 2);
    assert!(reg.project_path_exists("/p/one"));
    assert!(!reg.project_path_exists("/p/three"));
    assert_eq!(reg.get_project_by_path("/p/two").unwrap().name, "Two");
    assert!(reg.get_project_by_path("/p/none").is_none());
}

#[test]
fn project_updates_and_removal() {
    let mut reg = init_database();
    let p = reg.add_project("One", "/p/one", 10).unwrap();
    reg.update_last_accessed(p.id, 99);
    assert_eq!(reg.get_project_by_path("/p/one").unwrap().last_accessed, 99);
    reg.rename_project(p.id, "Renamed");
    assert_eq!(reg.get_project_by_path("/p/one").unwrap().name, "Renamed");
    // Unknown ids change nothing.
    reg.update_last_accessed(77, 1);
    reg.rename_project(77, "x");
    reg.remove_project(p.id);
    assert!(reg.get_project_by_path("/p/one").is_none());
    assert_eq!(reg.get_all_projects().len(), 0);
}

#[test]
fn app_state_stores_and_overwrites() {
    let mut reg = init_database();
    assert!(reg.get_app_state("active").is_none());
    reg.set_app_state("active", "/p/one");
    assert_eq!(reg.get_app_state("active").as_deref(), Some("/p/one"));
    reg.set_app_state("active", "/p/two");
    assert_eq!(reg.get_app_state("active").as_deref(), Some("/p/two"));
    reg.set_backup_path("/p/one", "/backups/one");
    assert_eq!(reg.get_backup_path("/p/one").as_deref(), Some("/backups/one"));
    assert!(reg.get_backup_path("/p/two").is_none());
    // The backup key is namespaced and does not collide with plain keys.
    assert!(reg.get_app_state("/p/one").is_none());
}

#[test]
fn settings_counters_advance() {
    let mut reg = init_database();
    assert_eq!(
        reg.get_and_increment_epic_counter("/p/one"),
        Err(RegistryError::NotFound)
    );
    reg.init_project_settings("/p/one", 4, 7);
    // A second initialisation is ignored.
    reg.init_project_settings("/p/one", 100, 100);
    let s = reg.get_project_settings("/p/one").unwrap();
    assert_eq!(s.epic_counter, 4);
    assert_eq!(s.ticket_counter, 7);
    assert_eq!(s.total_epics, 0);
    assert_eq!(reg.get_and_increment_epic_counter("/p/one"), Ok(5));
    assert_eq!(reg.get_and_increment_epic_counter("/p/one"), Ok(6));
    assert_eq!(reg.get_and_increment_ticket_counter("/p/one"), Ok(8));
    reg.update_project_counters("/p/one", 20, 30);
    let s = reg.get_project_settings("/p/one").unwrap();
    assert_eq!(s.epic_counter, 20);
    assert_eq!(s.ticket_counter, 30);
}

#[test]
fn ticket_statistics_move_between_columns() {
    let mut reg = init_database();
    reg.init_project_settings("/p", 0, 0);
    reg.increment_epic_stats("/p");
    assert!(reg.increment_ticket_stats("/p", "backlog").is_ok());
    assert!(reg.increment_ticket_stats("/p", "backlog").is_ok());
    assert!(reg.increment_ticket_stats("/p", "done").is_ok());
    assert_eq!(
        reg.increment_ticket_stats("/p", "bogus"),
        Err(RegistryError::InvalidStatus)
    );
    let s = reg.get_project_settings("/p").unwrap();
    assert_eq!(s.total_epics, 1);
    assert_eq!(s.total_tickets, 3);
    assert_eq!(s.backlog_tickets, 2);
    assert_eq!(s.inprogress_tickets, 0);
    assert_eq!(s.done_tickets, 1);

    // Moving a ticket lowers one column and raises the other.
    assert!(reg.update_ticket_status_stats("/p", "backlog", "in_progress").is_ok());
    let s = reg.get_project_settings("/p").unwrap();
    assert_eq!(s.backlog_tickets, 1);
    assert_eq!(s.inprogress_tickets, 1);
    assert_eq!(s.total_tickets, 3);

    // Equal statuses change nothing, even invalid ones.
    assert!(reg.update_ticket_status_stats("/p", "bogus", "bogus").is_ok());
    assert_eq!(
        reg.update_ticket_status_stats("/p", "bogus", "done"),
        Err(RegistryError::InvalidStatus)
    );
    assert_eq!(
        reg.update_ticket_status_stats("/p", "done", "bogus"),
        Err(RegistryError::InvalidStatus)
    );

    reg.update_epic_completion_stats("/p", 2);
    assert_eq!(reg.get_project_settings("/p").unwrap().completed_epics, 2);
    reg.update_epic_completion_stats("/p", -1);
    assert_eq!(reg.get_project_settings("/p").unwrap().completed_epics, 1);

    // A project without settings is silently left unchanged.
    assert!(reg.increment_ticket_stats("/other", "backlog").is_ok());
    assert!(reg.get_project_settings("/other").is_none());
}

#[test]
fn snapshot_upserts_replace_by_id() {
    let mut snap = SnapshotStore::new();
    snap.upsert_epic(&epic("EPIC-001", "First", ""), "/p/.m2k");
    snap.upsert_epic(&epic("EPIC-001", "Renamed", ""), "/p/.m2k");
    let epics = snap.get_all_epics_snapshot("/p");
    assert_eq!(epics.len(), 1);
    assert_eq!(epics[0].id, "EPIC-001");
    assert_eq!(epics[0].title, "Renamed");
    assert!(epics[0].tickets.is_empty());

    snap.upsert_ticket(&ticket("T-001", "EPIC-001", "backlog", "/p/.m2k/backlog/T-001.md"));
    snap.upsert_ticket(&ticket("T-001", "EPIC-001", "done", "/p/.m2k/done/T-001.md"));
    let tickets = snap.get_all_tickets_snapshot("/p");
    assert_eq!(tickets.len(), 1);
    assert_eq!(tickets[0].status, "done");
}

#[test]
fn snapshot_queries_filter_by_project_and_epic() {
    let mut snap = SnapshotStore::new();
    snap.upsert_epic(&epic("EPIC-001", "A", ""), "/p/.m2k");
    snap.upsert_epic(&epic("EPIC-002", "B", ""), "/q/.m2k");
    assert_eq!(snap.get_all_epics_snapshot("/p").len(), 1);
    assert_eq!(snap.get_all_epics_snapshot("/q").len(), 1);
    assert_eq!(snap.get_all_epics_snapshot("/r").len(), 0);

    snap.upsert_ticket(&ticket("T-001", "EPIC-001", "backlog", "/p/.m2k/backlog/T-001.md"));
    snap.upsert_ticket(&ticket("T-002", "", "backlog", "/p/.m2k/backlog/T-002.md"));
    let by_epic = snap.get_tickets_by_epic("EPIC-001");
    assert_eq!(by_epic.len(), 1);
    assert_eq!(by_epic[0].id, "T-001");
    // The empty epic id matches nothing.
    assert_eq!(snap.get_tickets_by_epic("").len(), 0);

    snap.delete_ticket("T-001");
    assert_eq!(snap.get_tickets_by_epic("EPIC-001").len(), 0);
    snap.delete_epic("EPIC-001");
    assert_eq!(snap.get_all_epics_snapshot("/p").len(), 0);
    // Deleting an absent id changes nothing.
    snap.delete_epic("EPIC-404");
    snap.delete_ticket("T-404");
}

#[test]
fn sync_replaces_a_project_snapshot_atomically() {
    let mut snap = SnapshotStore::new();
    snap.upsert_epic(&epic("EPIC-001", "Old", ""), "/p/.m2k");
    snap.upsert_epic(&epic("EPIC-009", "Other project", ""), "/q/.m2k");
    snap.upsert_ticket(&ticket("T-001", "EPIC-001", "backlog", "/p/.m2k/backlog/T-001.md"));

    let epics = vec![epic("EPIC-002", "New", "")];
    let tickets = vec![
        ticket("T-010", "EPIC-002", "backlog", "/p/.m2k/backlog/T-010.md"),
        ticket("T-011", "EPIC-002", "done", "/p/.m2k/done/T-011.md"),
    ];
    snap.sync_md_snapshots("/p", "/p/.m2k", &epics, &tickets).expect("no collisions");

    let got = snap.get_all_epics_snapshot("/p");
    assert_eq!(got.len(), 1);
    assert_eq!(got[0].id, "EPIC-002");
    assert_eq!(snap.get_all_epics_snapshot("/q").len(), 1);
    assert_eq!(snap.get_all_tickets_snapshot("/p").len(), 2);

    // A duplicate inserted id rolls the whole synchronisation back.
    let dup = vec![epic("EPIC-009", "Collides with kept row", "")];
    assert_eq!(
        snap.sync_md_snapshots("/p", "/p/.m2k", &dup, &Vec::new()),
        Err(SnapshotError::DuplicateEpicId)
    );
    assert_eq!(snap.get_all_epics_snapshot("/p").len(), 1);
    assert_eq!(snap.get_all_epics_snapshot("/p")[0].id, "EPIC-002");

    let dup_tickets = vec![
        ticket("T-020", "", "backlog", "/p/.m2k/backlog/T-020.md"),
        ticket("T-020", "", "done", "/p/.m2k/done/T-020.md"),
    ];
    assert_eq!(
        snap.sync_md_snapshots("/p", "/p/.m2k", &Vec::new(), &dup_tickets),
        Err(SnapshotError::DuplicateTicketId)
    );
    assert_eq!(snap.get_all_tickets_snapshot("/p").len(), 2);
}

#[test]
fn pty_registry_hands_out_fresh_ids() {
    let mut ptys = PtyRegistry::new();
    let a = ptys.register();
    let b = ptys.register();
    assert_eq!(a, 1);
    assert_eq!(b, 2);
    assert!(ptys.write_pty(a).is_ok());
    assert_eq!(ptys.write_pty(42), Err(PtyError::NotFound));
    assert!(ptys.resize_pty(a, 80, 24).is_ok());
    assert!(ptys.kill_pty(a).is_ok());
    assert_eq!(ptys.write_pty(a), Err(PtyError::NotFound));
    // Killing an absent id still reports success.
    assert!(ptys.kill_pty(a).is_ok());
    assert_eq!(PtyError::NotFound.message(), "PTY not found");
}

#[test]
fn registry_error_messages() {
    assert_eq!(RegistryError::DuplicatePath.message(), "project path already registered");
    assert_eq!(RegistryError::NotFound.message(), "project settings not found");
    assert_eq!(RegistryError::InvalidStatus.message(), "invalid ticket status");
}
