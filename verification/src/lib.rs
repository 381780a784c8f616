//! Core library of a desktop project-management tool: a bounded concurrent
//! task-execution queue with a durable task record store, the decision logic
//! of the task executor and execution logger, markdown ticket/epic parsing,
//! and the project registry models that back the application's commands.

use vstd::prelude::*;

mod cli;
mod executor;
mod logger;
mod naming;
mod parser;
mod pty;
mod queue;
mod registry;
mod session;
mod stats;
mod snapshot;
mod status;
mod store;
mod system;
mod strutil;
mod task;
mod watcher;

pub use naming::AppConfig;
pub use naming::default_editor_mode;
pub use naming::default_theme;
pub use naming::extract_project_name;
pub use naming::generate_unique_project_folder;
pub use naming::path_is_inside;
pub use naming::resource_subfolder;
pub use naming::sanitize_folder_name;
pub use parser::Epic;
pub use parser::EpicSource;
pub use parser::Ticket;
pub use parser::TicketSource;
pub use parser::extract_criteria;
pub use parser::extract_epic;
pub use parser::extract_section;
pub use parser::extract_ticket_refs;
pub use parser::extract_title;
pub use parser::folder_to_status;
pub use parser::parse_epic_content;
pub use parser::parse_epics;
pub use parser::parse_ticket_content;
pub use parser::parse_tickets;
pub use parser::split_cells;
pub use parser::status_to_folder;
pub use parser::update_epic_ticket_status;
pub use registry::Project;
pub use registry::ProjectRegistry;
pub use registry::ProjectSettings;
pub use registry::RegistryError;
pub use registry::StateEntry;
pub use registry::TicketColumn;
pub use registry::init_database;
pub use registry::ticket_column;
pub use session::ClaudeSession;
pub use session::SessionState;
pub use session::extract_email;
pub use session::parse_auth_output;
pub use snapshot::EpicRow;
pub use snapshot::SnapshotError;
pub use snapshot::SnapshotStore;
pub use snapshot::TicketRow;
pub use stats::StatsSummary;
pub use stats::compute_stats;
pub use stats::initial_counters;
pub use status::LogLevel;
pub use status::TaskStatus;
pub use status::is_terminal;
pub use status::level_name;
pub use status::parse_status;
pub use status::status_name;
pub use cli::ClaudeCliOutput;
pub use cli::ClaudeCliResult;
pub use cli::CliControl;
pub use cli::GeneratedEpic;
pub use cli::GeneratedTicket;
pub use cli::cli_result_from_exit;
pub use cli::extract_json_block;
pub use executor::ClaudeExecutor;
pub use executor::DEFAULT_TIMEOUT_UNITS;
pub use executor::ProcessWait;
pub use logger::ClaudeLogger;
pub use logger::ExecutionLog;
pub use pty::PtyError;
pub use pty::PtyRegistry;
pub use pty::emit_delay_for;
pub use pty::should_emit;
pub use queue::CancelKind;
pub use queue::PendingEntry;
pub use queue::SHUTDOWN_GRACE_UNITS;
pub use queue::QueueConfig;
pub use queue::QueueError;
pub use queue::QueueStats;
pub use queue::TaskQueue;
pub use store::StoreError;
pub use store::TaskStore;
pub use store::init_tasks_table;
pub use system::SubmitError;
pub use system::TaskSystem;
pub use task::Task;
pub use task::TaskRequest;
pub use task::TaskResult;
pub use watcher::MdChange;
pub use watcher::is_markdown_path;
pub use watcher::md_change_route;

verus! {

} // verus!
