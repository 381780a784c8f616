//! The agent CLI layer: the shape of streamed output and final results,
//! the single-run control flags, the types the epic generator produces,
//! and the extraction of the JSON block from a model reply. Spawning and
//! streaming the process is the hosting application's; every decision on
//! the data is verified here.

use vstd::prelude::*;

use crate::strutil::contains_substring;
use crate::strutil::find_substring;
use crate::strutil::spec_contains;
use crate::strutil::spec_first_match;
use crate::strutil::spec_idec;
use crate::strutil::spec_trim;
use crate::strutil::i32_to_string;
use crate::strutil::trim_str;

verus! {

/// One streamed output line, tagged with the stream it came from.
pub struct ClaudeCliOutput {
    pub line: String,
    pub stream: String,
}

impl Clone for ClaudeCliOutput {
    fn clone(&self) -> (r: Self)
        ensures
            r == *self,
    {
        ClaudeCliOutput { line: self.line.clone(), stream: self.stream.clone() }
    }
}

/// The final result of one CLI run.
pub struct ClaudeCliResult {
    pub success: bool,
    pub exit_code: Option<i32>,
    pub error: Option<String>,
}

impl Clone for ClaudeCliResult {
    fn clone(&self) -> (r: Self)
        ensures
            r == *self,
    {
        ClaudeCliResult {
            success: self.success,
            exit_code: self.exit_code,
            error: match &self.error {
                Some(e) => Some(e.clone()),
                None => None,
            },
        }
    }
}

/// Builds the result of a finished CLI run: successful runs carry no
/// error; failed runs name the exit code, or `unknown` when the process
/// was ended by a signal.
pub fn cli_result_from_exit(success: bool, exit_code: Option<i32>) -> (r: ClaudeCliResult)
    ensures
        r.success == success,
        r.exit_code == exit_code,
        success ==> r.error is None,
        !success ==> (r.error matches Some(e) && e@ == "Agent CLI exited with code "@ + (
        match exit_code {
            Some(c) => spec_idec(c as int),
            None => "unknown"@,
        })),
{
    if success {
        ClaudeCliResult { success, exit_code, error: None }
    } else {
        let mut err = String::from_str("Agent CLI exited with code ");
        match exit_code {
            Some(c) => {
                let num = i32_to_string(c);
                err.append(num.as_str());
            },
            None => {
                err.append("unknown");
            },
        }
        ClaudeCliResult { success, exit_code, error: Some(err) }
    }
}

/// The control flags of the single CLI run slot: at most one run is in
/// flight, and its stream readers poll the stop flag.
pub struct CliControl {
    pub running: bool,
    pub stop_requested: bool,
}

impl CliControl {
    /// Fresh control flags: nothing runs, no stop requested.
    pub fn new() -> (r: Self)
        ensures
            !r.running,
            !r.stop_requested,
    {
        CliControl { running: false, stop_requested: false }
    }

    /// Whether a run is in flight.
    pub fn is_running(&self) -> (r: bool)
        ensures
            r == self.running,
    {
        self.running
    }

    /// The stop flag the stream readers poll.
    pub fn get_stop_flag(&self) -> (r: bool)
        ensures
            r == self.stop_requested,
    {
        self.stop_requested
    }

    /// Claims the run slot: refused while a run is in flight; otherwise
    /// the run starts with a cleared stop flag.
    pub fn begin_run(&mut self) -> (r: bool)
        ensures
            old(self).running ==> !r && *final(self) == *old(self),
            !old(self).running ==> r && final(self).running && !final(self).stop_requested,
    {
        if self.running {
            return false;
        }
        self.running = true;
        self.stop_requested = false;
        true
    }

    /// Requests the in-flight run to stop; the readers observe the flag.
    pub fn request_stop(&mut self)
        ensures
            final(self).stop_requested,
            final(self).running == old(self).running,
    {
        self.stop_requested = true;
    }

    /// Releases the run slot when the run has ended.
    pub fn finish_run(&mut self)
        ensures
            !final(self).running,
            final(self).stop_requested == old(self).stop_requested,
    {
        self.running = false;
    }
}

/// One generated ticket of an epic proposal.
pub struct GeneratedTicket {
    pub id: String,
    pub title: String,
    pub description: String,
    pub criteria: Vec<String>,
    pub technical_notes: String,
    pub dependencies: String,
    pub testing: String,
}

/// One generated epic proposal with its tickets.
pub struct GeneratedEpic {
    pub id: String,
    pub title: String,
    pub scope: String,
    pub tickets: Vec<GeneratedTicket>,
}

/// The JSON block of a model reply: the text between the first
/// ` ```json ` fence and the following ` ``` ` (or the end), else
/// between the first two plain ` ``` ` fences, else the whole reply;
/// trimmed in every case.
pub open spec fn spec_json_block(s: Seq<char>) -> Seq<char> {
    if spec_contains(s, "```json"@) {
        let rest = s.subrange(spec_first_match(s, "```json"@) + 7, s.len() as int);
        if spec_contains(rest, "```"@) {
            spec_trim(rest.subrange(0, spec_first_match(rest, "```"@)))
        } else {
            spec_trim(rest)
        }
    } else if spec_contains(s, "```"@) {
        let rest = s.subrange(spec_first_match(s, "```"@) + 3, s.len() as int);
        if spec_contains(rest, "```"@) {
            spec_trim(rest.subrange(0, spec_first_match(rest, "```"@)))
        } else {
            spec_trim(rest)
        }
    } else {
        spec_trim(s)
    }
}

/// Extracts the JSON block from a model reply, unwrapping a markdown
/// code fence when one is present.
pub fn extract_json_block(text: &str) -> (r: String)
    ensures
        r@ == spec_json_block(text@),
{
    let n = text.unicode_len();
    if let Some(m) = find_substring(text, "```json") {
        proof {
            reveal_strlit("```json");
        }
        let rest = text.substring_char(m + 7, n);
        let inner = match find_substring(rest, "```") {
            Some(e) => rest.substring_char(0, e),
            None => rest,
        };
        trim_str(inner)
    } else if let Some(m) = find_substring(text, "```") {
        proof {
            reveal_strlit("```");
        }
        let rest = text.substring_char(m + 3, n);
        let inner = match find_substring(rest, "```") {
            Some(e) => rest.substring_char(0, e),
            None => rest,
        };
        trim_str(inner)
    } else {
        trim_str(text)
    }
}

} // verus!
