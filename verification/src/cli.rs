//! The command line of the developer tools: the subcommand chosen, and the
//! setup options its flags select.

use vstd::prelude::*;
use crate::env_setup::SetupOptions;

verus! {

/// The parsed command line.
#[derive(Debug, Clone, Copy, PartialEq, Eq, Structural)]
pub struct Cli {
    /// The subcommand to run.
    pub command: Command,
}

/// The subcommands.
#[derive(Debug, Clone, Copy, PartialEq, Eq, Structural)]
pub enum Command {
    /// Runs the development orchestrator.
    Dev,
    /// Builds and serves the workspace documentation.
    Docs,
    /// Writes the documentation's index page.
    DocsIndex,
    /// Prepares the local development environment.
    Setup {
        non_interactive: bool,
        skip_db: bool,
        skip_migrate: bool,
        skip_build: bool,
        dry_run: bool,
        release: bool,
    },
    /// Runs the API tester.
    ApiTester,
    /// Runs the database viewer.
    DbViewer,
}

impl Command {
    /// The setup options the `setup` flags select; `None` for the other
    /// subcommands.
    pub fn setup_options(&self) -> (r: Option<SetupOptions>)
        ensures
            match *self {
                Command::Setup { non_interactive, skip_db, skip_migrate, skip_build, dry_run, release } => r
                    matches Some(o) && o.non_interactive == non_interactive && o.skip_db == skip_db
                    && o.skip_migrate == skip_migrate && o.skip_build == skip_build && o.dry_run == dry_run
                    && o.release == release,
                _ => r is None,
            },
    {
        match *self {
            Command::Setup { non_interactive, skip_db, skip_migrate, skip_build, dry_run, release } => Some(
                SetupOptions { non_interactive, skip_db, skip_migrate, skip_build, dry_run, release },
            ),
            _ => None,
        }
    }
}

} // verus!
