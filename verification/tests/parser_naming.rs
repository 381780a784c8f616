//! Behaviour of the markdown parser, the status mappings, the naming
//! helpers and the statistics computation.

use m2k_core::AppConfig;
use m2k_core::EpicSource;
use m2k_core::TaskStatus;
use m2k_core::TicketSource;
use m2k_core::compute_stats;
use m2k_core::default_editor_mode;
use m2k_core::default_theme;
use m2k_core::extract_project_name;
use m2k_core::folder_to_status;
use m2k_core::generate_unique_project_folder;
use m2k_core::is_terminal;
use m2k_core::level_name;
use m2k_core::parse_epic_content;
use m2k_core::parse_epics;
use m2k_core::parse_status;
use m2k_core::parse_ticket_content;
use m2k_core::parse_tickets;
use m2k_core::path_is_inside;
use m2k_core::resource_subfolder;
use m2k_core::sanitize_folder_name;
use m2k_core::status_name;
use m2k_core::status_to_folder;
use m2k_core::LogLevel;

#[test]
fn status_names_round_trip() {
    for status in [
        TaskStatus::Queued,
        TaskStatus::Running,
        TaskStatus::Completed,
        TaskStatus::Failed,
        TaskStatus::Timeout,
    ] {
        assert_eq!(parse_status(&status_name(status)), status);
    }
    assert_eq!(status_name(TaskStatus::Queued), "queued");
    assert_eq!(parse_status("something else"), TaskStatus::Queued);
    assert!(!is_terminal(TaskStatus::Queued));
    assert!(!is_terminal(TaskStatus::Running));
    assert!(is_terminal(TaskStatus::Completed));
    assert!(is_terminal(TaskStatus::Failed));
    assert!(is_terminal(TaskStatus::Timeout));
    assert_eq!(level_name(LogLevel::Warning), "Warning");
}

#[test]
fn folder_and_status_mappings() {
    assert_eq!(folder_to_status("backlog"), "backlog");
    assert_eq!(folder_to_status("in-progress"), "in_progress");
    assert_eq!(folder_to_status("inprogress"), "in_progress");
    assert_eq!(folder_to_status("done"), "done");
    assert_eq!(folder_to_status("weird"), "backlog");
    assert_eq!(status_to_folder("backlog").as_deref(), Some("backlog"));
    assert_eq!(status_to_folder("in_progress").as_deref(), Some("inprogress"));
    assert_eq!(status_to_folder("done").as_deref(), Some("done"));
    assert!(status_to_folder("bogus").is_none());
}

#[test]
fn ticket_parsing_reads_all_parts() {
    let content = "# T-004: Build the thing\n\
**Epic:** EPIC-012\n\
\n\
## Description\n\
Make it work.\n\
Across two lines.\n\
\n\
## Acceptance Criteria\n\
- first criterion\n\
-- second, with double dash\n\
not a criterion\n\
\n\
## Notes\n\
ignored\n";
    let t = parse_ticket_content("T-004", content, "in-progress", "/p/.m2k/inprogress/T-004.md");
    assert_eq!(t.id, "T-004");
    assert_eq!(t.title, "Build the thing");
    assert_eq!(t.epic, "EPIC-012");
    assert_eq!(t.description, "Make it work.\nAcross two lines.");
    assert_eq!(
        t.criteria,
        vec!["first criterion".to_string(), "second, with double dash".to_string()]
    );
    assert_eq!(t.status, "in_progress");
    assert_eq!(t.file_path, "/p/.m2k/inprogress/T-004.md");
}

#[test]
fn ticket_parsing_falls_back_when_parts_are_missing() {
    let t = parse_ticket_content("T-001", "no structure here", "backlog", "/x.md");
    assert_eq!(t.title, "T-001");
    assert_eq!(t.epic, "");
    assert_eq!(t.description, "");
    assert!(t.criteria.is_empty());
    assert_eq!(t.status, "backlog");
}

#[test]
fn title_keeps_untagged_headings_whole() {
    let t = parse_ticket_content("T-002", "# Plain title\n", "done", "/x.md");
    assert_eq!(t.title, "Plain title");
    // Only the first heading counts; a section heading is not a title.
    let t = parse_ticket_content("T-003", "## Description\ntext\n# Late title\n", "done", "/x.md");
    assert_eq!(t.title, "Late title");
}

#[test]
fn epic_parsing_reads_id_title_scope_and_tickets() {
    let content = "# EPIC-002: Project Setup\n\
\n\
## Scope\n\
All the groundwork.\n\
\n\
## Tickets\n\
| T-001 | prepare | backlog |\n\
| T-002 | arrange | done |\n";
    let e = parse_epic_content("EPIC-002-Project-Setup", content, "/p/.m2k/epics/EPIC-002.md");
    assert_eq!(e.id, "EPIC-002");
    assert_eq!(e.title, "Project Setup");
    assert_eq!(e.scope, "All the groundwork.");
    assert_eq!(e.tickets, vec!["T-001".to_string(), "T-002".to_string()]);
    assert_eq!(e.file_path, "/p/.m2k/epics/EPIC-002.md");
}

#[test]
fn epic_id_falls_back_to_the_stem() {
    let e = parse_epic_content("setup-notes", "# Notes\n", "/x.md");
    assert_eq!(e.id, "setup-notes");
    // And without a title line the title is the id.
    let e = parse_epic_content("setup-notes", "plain text", "/x.md");
    assert_eq!(e.title, "setup-notes");
}

#[test]
fn batch_parsing_maps_every_source() {
    let tickets = parse_tickets(&vec![
        TicketSource {
            file_stem: "T-001".to_string(),
            content: "# T-001: One\n".to_string(),
            folder: "backlog".to_string(),
            file_path: "/p/backlog/T-001.md".to_string(),
        },
        TicketSource {
            file_stem: "T-002".to_string(),
            content: "# T-002: Two\n".to_string(),
            folder: "done".to_string(),
            file_path: "/p/done/T-002.md".to_string(),
        },
    ]);
    assert_eq!(tickets.len(), 2);
    assert_eq!(tickets[0].title, "One");
    assert_eq!(tickets[1].status, "done");

    let epics = parse_epics(&vec![EpicSource {
        file_stem: "EPIC-001-x".to_string(),
        content: "# EPIC-001: X\n".to_string(),
        file_path: "/p/epics/EPIC-001-x.md".to_string(),
    }]);
    assert_eq!(epics.len(), 1);
    assert_eq!(epics[0].id, "EPIC-001");
}

#[test]
fn project_names_come_from_the_last_path_component() {
    assert_eq!(extract_project_name("/home/me/projects/neat"), "neat");
    assert_eq!(extract_project_name("/home/me/projects/neat/"), "neat");
    assert_eq!(extract_project_name("neat"), "neat");
    assert_eq!(extract_project_name(""), "project");
    assert_eq!(extract_project_name("///"), "project");
}

#[test]
fn folder_names_are_sanitised() {
    assert_eq!(sanitize_folder_name("My Project!"), "My_Project_");
    assert_eq!(sanitize_folder_name("ok-name_2"), "ok-name_2");
    assert_eq!(sanitize_folder_name(""), "");
    assert_eq!(sanitize_folder_name("a/b\\c"), "a_b_c");
}

#[test]
fn unique_folder_names_skip_taken_candidates() {
    let empty: Vec<String> = Vec::new();
    assert_eq!(generate_unique_project_folder(&empty, "neat"), "neat");
    let existing = vec!["neat".to_string()];
    assert_eq!(generate_unique_project_folder(&existing, "neat"), "neat-1");
    let existing = vec!["neat".to_string(), "neat-1".to_string(), "neat-2".to_string()];
    assert_eq!(generate_unique_project_folder(&existing, "neat"), "neat-3");
    // The candidate is built from the sanitised name.
    let existing = vec!["my_app".to_string()];
    assert_eq!(generate_unique_project_folder(&existing, "my app"), "my_app-1");
}

#[test]
fn backup_paths_inside_the_project_are_detected() {
    assert!(path_is_inside("/home/p/backup", "/home/p"));
    assert!(path_is_inside("/home/p", "/home/p"));
    assert!(!path_is_inside("/home/p2", "/home/p"));
    assert!(!path_is_inside("/home", "/home/p"));
}

#[test]
fn resource_uploads_are_organised_by_extension() {
    assert_eq!(resource_subfolder("png"), "images");
    assert_eq!(resource_subfolder("pdf"), "documents");
    assert_eq!(resource_subfolder("sketch"), "designs");
    assert_eq!(resource_subfolder("md"), "text");
    assert_eq!(resource_subfolder("mp4"), "videos");
    assert_eq!(resource_subfolder("wav"), "audio");
    assert_eq!(resource_subfolder("zip"), "archives");
    assert_eq!(resource_subfolder("xyz"), "other");
}

#[test]
fn default_config() {
    assert_eq!(default_theme(), "dark");
    assert_eq!(default_editor_mode(), "kanban");
    let config = AppConfig::default();
    assert!(config.project_path.is_none());
    assert_eq!(config.theme, "dark");
    assert!(!config.sidebar_collapsed);
    assert_eq!(config.default_editor_mode, "kanban");
}

#[test]
fn stats_count_tickets_and_completed_epics() {
    let mk_ticket = |id: &str, epic: &str, status: &str| m2k_core::Ticket {
        id: id.to_string(),
        title: String::new(),
        epic: epic.to_string(),
        description: String::new(),
        criteria: Vec::new(),
        status: status.to_string(),
        file_path: String::new(),
    };
    let mk_epic = |id: &str| m2k_core::Epic {
        id: id.to_string(),
        title: String::new(),
        scope: String::new(),
        tickets: Vec::new(),
        file_path: String::new(),
    };
    let epics = vec![mk_epic("EPIC-001"), mk_epic("EPIC-002"), mk_epic("EPIC-003")];
    let tickets = vec![
        mk_ticket("T-001", "EPIC-001", "done"),
        mk_ticket("T-002", "EPIC-001", "done"),
        mk_ticket("T-003", "EPIC-002", "backlog"),
        mk_ticket("T-004", "EPIC-002", "done"),
        mk_ticket("T-005", "", "in_progress"),
    ];
    let stats = compute_stats(&epics, &tickets);
    assert_eq!(stats.total_epics, 3);
    // EPIC-001 has tickets, all done; EPIC-002 has an open one;
    // EPIC-003 has none at all.
    assert_eq!(stats.completed_epics, 1);
    assert_eq!(stats.total_tickets, 5);
    assert_eq!(stats.backlog_tickets, 1);
    assert_eq!(stats.inprogress_tickets, 1);
    assert_eq!(stats.done_tickets, 3);
}
