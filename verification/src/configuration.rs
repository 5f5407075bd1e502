//! The configuration a run is driven by, and the host it runs on.

use vstd::prelude::*;

pub mod command;
pub mod commandset;
pub mod files;
pub mod packages;
pub mod snap;
pub mod syntax;
pub mod system;

pub use command::CustomCommand;
pub use commandset::{CommandSet, OrderedCommand};
pub use files::{FileDownloadDefinition, FileDownloadOperation};
pub use packages::{DistroPackages, PackageList};
pub use snap::{SnapChannel, SnapPackage, Snaps, StandardSnaps};
pub use syntax::{guess_file_syntax, FileSyntax};
pub use system::{PackageManager, SystemDetails, SystemRefreshOperation, TargetOperatingSystem};

verus! {

/// Everything a run works through, with the system it was loaded on.
#[derive(Debug)]
pub struct Configuration {
    /// The packages to install, if any.
    pub package_list: Option<PackageList>,
    /// The files to download, if any.
    pub file_downloads: Option<Vec<FileDownloadOperation>>,
    /// The snaps to install, if any.
    pub snaps: Option<Snaps>,
    /// The commands to run, in the order given.
    pub custom_commands: Option<Vec<CustomCommand>>,
    /// The sets of commands to run, each in the order of its ids.
    pub command_sets: Option<Vec<CommandSet>>,
    /// Whether to update and upgrade the system before packages are
    /// installed.
    pub update_system: bool,
    /// The details of the system the configuration was loaded on.
    pub system_details: SystemDetails,
}

} // verus!
