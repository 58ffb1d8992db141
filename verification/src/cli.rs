//! The short command line: a folder and an optional schedule.

use vstd::prelude::*;

verus! {

/// The folder backed up when none is given.
pub open spec fn default_folder() -> Seq<char> {
    "/dockerbox"@
}

/// Command line of the short form.
pub struct Cli {
    /// Path to the folder to backup.
    ///
    /// If not specified, defaults to "/dockerbox".
    pub folder: Option<String>,
    /// Specify a cron expression to run the backup periodically.
    ///
    /// If not specified, the backup will only run once.
    pub schedule: Option<String>,
}

impl Cli {
    /// The folder to back up: the one given, or "/dockerbox".
    pub fn folder_or_default(&self) -> (res: String)
        ensures
            res@ == (match self.folder {
                Some(f) => f@,
                None => default_folder(),
            }),
    {
        match &self.folder {
            Some(f) => f.clone(),
            None => String::from_str("/dockerbox"),
        }
    }
}

} // verus!
