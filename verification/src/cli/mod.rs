//! The command line: `serve`, with an optional single task, and `prepare`.
pub mod fixtures;

use vstd::prelude::*;

verus! {

/// The parsed command line.
#[derive(Debug)]
pub struct Cli {
    pub command: Commands,
}

/// The subcommands.
#[derive(Debug)]
pub enum Commands {
    Serve(ServerArgs),
    Prepare(PrepareArgs),
}

/// Arguments of `serve`; at most one of the flags is set.
#[derive(Debug, Clone, Copy)]
pub struct ServerArgs {
    /// Start the server without running the services first.
    pub dry_start: bool,
    /// Scan the media library.
    pub scan: bool,
    /// Resample audio files.
    pub resample: bool,
    /// Synchronise the library with the database.
    pub sync: bool,
}

/// Arguments of `prepare`.
#[derive(Debug, Clone, Copy)]
pub struct PrepareArgs {
    /// Also set up what development needs.
    pub dev: bool,
}

/// What `serve` does.
#[derive(Debug, Clone, Copy, PartialEq, Eq, Structural)]
pub enum ServeAction {
    /// Serve the web pages only.
    DryStart,
    /// Scan the library and print what was found.
    Scan,
    /// Scan the library and resample it in place.
    Resample,
    /// Synchronise the library with the database.
    Sync,
    /// Scan, resample and synchronise, then serve.
    Full,
}

/// What `prepare` does.
#[derive(Debug, Clone, Copy, PartialEq, Eq, Structural)]
pub enum PrepareAction {
    /// Folders, database file and `ffmpeg`, then the test material.
    Devspace,
    /// Folders, database file and `ffmpeg`.
    Userspace,
}

impl ServerArgs {
    /// The task that the flags ask for; the first set flag wins, in the order
    /// dry start, scan, resample, sync; with none set, everything is done.
    pub fn action(&self) -> (res: ServeAction)
        ensures
            res == (if self.dry_start {
                ServeAction::DryStart
            } else if self.scan {
                ServeAction::Scan
            } else if self.resample {
                ServeAction::Resample
            } else if self.sync {
                ServeAction::Sync
            } else {
                ServeAction::Full
            }),
    {
        if self.dry_start {
            ServeAction::DryStart
        } else if self.scan {
            ServeAction::Scan
        } else if self.resample {
            ServeAction::Resample
        } else if self.sync {
            ServeAction::Sync
        } else {
            ServeAction::Full
        }
    }
}

impl PrepareArgs {
    /// The preparation that the flags ask for.
    pub fn action(&self) -> (res: PrepareAction)
        ensures
            res == (if self.dev { PrepareAction::Devspace } else { PrepareAction::Userspace }),
    {
        if self.dev {
            PrepareAction::Devspace
        } else {
            PrepareAction::Userspace
        }
    }
}

} // verus!
