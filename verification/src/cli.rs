//! The command surface: what the arguments of one run of the program ask
//! for.

use crate::task::Status;
use vstd::prelude::*;
use vstd::string::StringExecFns;

verus! {

/// One command.
#[derive(Debug)]
#[allow(inconsistent_fields)]
pub enum Commands {
    /// Add a new task.
    Add { description: String },
    /// Update an existing task.
    Update { id: i32, status: Status, description: Option<String> },
    /// View tasks, in the board view if `kanban` is set.
    Show { kanban: bool },
    /// Delete a task.
    Delete { id: i32 },
}

/// The arguments of one run.
#[derive(Debug)]
pub struct Cli {
    /// The path of the backing file, where one is given.
    pub file: Option<String>,
    /// Whether to report which file is used.
    pub verbose: bool,
    /// Whether a run without a command shows the board view.
    pub kanban: bool,
    /// The command, where one is given.
    pub command: Option<Commands>,
}

impl Cli {
    /// The path of the backing file: the one that was given, else the
    /// standing file name.
    pub fn tasklist_file(&self) -> (path: String)
        ensures
            path@ == match self.file {
                Some(p) => p@,
                None => ".tasklist"@,
            },
    {
        match &self.file {
            Some(p) => p.clone(),
            None => ".tasklist".to_owned(),
        }
    }

    /// What a verbose run reports before it works on the backing file at
    /// `path`, and nothing for a run that is not verbose.
    pub fn verbose_note(&self, path: &str) -> (note: Option<String>)
        ensures
            match note {
                Some(text) => self.verbose && text@ == "Using tasklist file: "@ + path@,
                None => !self.verbose,
            },
    {
        if self.verbose {
            let mut text = "Using tasklist file: ".to_owned();
            text.append(path);
            Some(text)
        } else {
            None
        }
    }

    /// The command to carry out: the one that was given, else `Show` with
    /// the view that the global switch asks for.
    pub fn resolve(self) -> (command: Commands)
        ensures
            command == match self.command {
                Some(c) => c,
                None => Commands::Show { kanban: self.kanban },
            },
    {
        match self.command {
            Some(c) => c,
            None => Commands::Show { kanban: self.kanban },
        }
    }
}

} // verus!
