//! The settings of one run: which phases it goes through and how much it
//! tells.

use vstd::prelude::*;

verus! {

/// The settings of one run.
#[derive(Debug)]
pub struct RunConfig {
    /// The log level, as the logger spells it.
    pub log_level: &'static str,
    /// Whether packages are installed.
    pub run_package_installs: bool,
    /// Whether files are downloaded.
    pub run_file_downloads: bool,
    /// Whether snaps are installed.
    pub run_snap_installs: bool,
    /// Whether custom commands and command sets are run.
    pub run_custom_commands: bool,
    /// The path of the configuration file.
    pub config_file_path: String,
    /// Whether the parsed configuration is printed.
    pub print_parsed: bool,
}

/// The phases of a run.
#[derive(Debug, Clone, Copy, PartialEq, Eq, Structural)]
pub enum Phase {
    /// Packages are installed through the package manager.
    PackageInstalls,
    /// Files are downloaded.
    FileDownloads,
    /// Custom commands and command sets are run.
    CustomCommands,
    /// Snaps are installed.
    SnapInstalls,
}

/// `phase` alone if it is switched on, nothing otherwise.
pub open spec fn optional_phase(enabled: bool, phase: Phase) -> Seq<Phase> {
    if enabled {
        seq![phase]
    } else {
        Seq::empty()
    }
}

/// The phases that a run goes through, in order: package installs, file
/// downloads, custom commands, snap installs, each only if it is
/// switched on.
pub open spec fn phases_spec(config: RunConfig) -> Seq<Phase> {
    optional_phase(config.run_package_installs, Phase::PackageInstalls) + optional_phase(
        config.run_file_downloads,
        Phase::FileDownloads,
    ) + optional_phase(config.run_custom_commands, Phase::CustomCommands) + optional_phase(
        config.run_snap_installs,
        Phase::SnapInstalls,
    )
}

/// The log level for a count of `-v` flags: `off` when quiet, else `warn`,
/// `info`, `debug`, and `trace` from three flags on.
pub open spec fn log_level_spec(verbosity: u64, is_quiet: bool) -> Seq<char> {
    if is_quiet {
        "off"@
    } else if verbosity == 0 {
        "warn"@
    } else if verbosity == 1 {
        "info"@
    } else if verbosity == 2 {
        "debug"@
    } else {
        "trace"@
    }
}

/// The log level for the given number of verbosity flags.
pub fn get_log_level(verbosity: u64, is_quiet: bool) -> (r: &'static str)
    ensures
        r@ == log_level_spec(verbosity, is_quiet),
{
    if is_quiet {
        return "off";
    }
    if verbosity == 0 {
        "warn"
    } else if verbosity == 1 {
        "info"
    } else if verbosity == 2 {
        "debug"
    } else {
        "trace"
    }
}

impl Clone for RunConfig {
    fn clone(&self) -> (r: RunConfig)
        ensures
            r == *self,
    {
        RunConfig {
            log_level: self.log_level,
            run_package_installs: self.run_package_installs,
            run_file_downloads: self.run_file_downloads,
            run_snap_installs: self.run_snap_installs,
            run_custom_commands: self.run_custom_commands,
            config_file_path: self.config_file_path.clone(),
            print_parsed: self.print_parsed,
        }
    }
}

impl RunConfig {
    /// The settings of a run.
    pub fn new(
        config_file_path: String,
        log_level: &'static str,
        run_package_installs: bool,
        run_file_downloads: bool,
        run_snap_installs: bool,
        run_custom_commands: bool,
        print_parsed: bool,
    ) -> (r: RunConfig)
        ensures
            r.config_file_path == config_file_path,
            r.log_level == log_level,
            r.run_package_installs == run_package_installs,
            r.run_file_downloads == run_file_downloads,
            r.run_snap_installs == run_snap_installs,
            r.run_custom_commands == run_custom_commands,
            r.print_parsed == print_parsed,
    {
        RunConfig {
            log_level,
            run_package_installs,
            run_file_downloads,
            run_snap_installs,
            run_custom_commands,
            config_file_path,
            print_parsed,
        }
    }

    /// The phases that this run goes through, in order.
    pub fn phases(&self) -> (r: Vec<Phase>)
        ensures
            r@ == phases_spec(*self),
    {
        let mut phases: Vec<Phase> = Vec::new();
        if self.run_package_installs {
            phases.push(Phase::PackageInstalls);
        }
        if self.run_file_downloads {
            phases.push(Phase::FileDownloads);
        }
        if self.run_custom_commands {
            phases.push(Phase::CustomCommands);
        }
        if self.run_snap_installs {
            phases.push(Phase::SnapInstalls);
        }
        assert(phases@ =~= phases_spec(*self));
        phases
    }
}

} // verus!
