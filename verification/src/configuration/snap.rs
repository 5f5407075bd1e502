//! Snap packages and the commands that install them.

use vstd::prelude::*;
use vstd::string::StringExecFns;
use crate::configuration::system::SystemDetails;
use crate::error::{Error, ErrorView};
use crate::operations::RunnableOperation;
use crate::text::append_texts;

verus! {

/// A channel that a snap can be installed from.
#[derive(Debug, Clone, Copy, PartialEq, Eq, Structural)]
pub enum SnapChannel {
    /// The channel `--stable`, which is the default.
    Stable,
    /// The channel `--beta`.
    Beta,
    /// The channel `--candidate`.
    Candidate,
    /// The channel `--edge`.
    Edge,
}

/// The install flag that selects a channel.
pub open spec fn channel_flag(channel: SnapChannel) -> Seq<char> {
    match channel {
        SnapChannel::Stable => "--stable"@,
        SnapChannel::Beta => "--beta"@,
        SnapChannel::Candidate => "--candidate"@,
        SnapChannel::Edge => "--edge"@,
    }
}

impl SnapChannel {
    /// The install flag that selects this channel.
    pub fn to_flag(&self) -> (r: String)
        ensures
            r@ == channel_flag(*self),
    {
        match self {
            SnapChannel::Stable => String::from_str("--stable"),
            SnapChannel::Beta => String::from_str("--beta"),
            SnapChannel::Candidate => String::from_str("--candidate"),
            SnapChannel::Edge => String::from_str("--edge"),
        }
    }
}

impl Default for SnapChannel {
    fn default() -> (r: SnapChannel)
        ensures
            r == SnapChannel::Stable,
    {
        SnapChannel::Stable
    }
}

/// A single snap, with the channel to install it from and its confinement.
#[derive(Debug, PartialEq, Eq)]
pub struct SnapPackage {
    /// The name of the snap.
    pub name: String,
    /// Whether the snap requires `--classic` confinement.
    pub classic: bool,
    /// The channel from which to install the snap.
    pub channel: SnapChannel,
}

/// The mathematical content of a [`SnapPackage`].
pub struct SnapPackageView {
    pub name: Seq<char>,
    pub classic: bool,
    pub channel: SnapChannel,
}

impl View for SnapPackage {
    type V = SnapPackageView;

    open spec fn view(&self) -> SnapPackageView {
        SnapPackageView { name: self.name@, classic: self.classic, channel: self.channel }
    }
}

impl DeepView for SnapPackage {
    type V = SnapPackageView;

    open spec fn deep_view(&self) -> SnapPackageView {
        self@
    }
}

impl Clone for SnapPackage {
    fn clone(&self) -> (r: SnapPackage)
        ensures
            r@ == self@,
    {
        SnapPackage { name: self.name.clone(), classic: self.classic, channel: self.channel }
    }
}

/// The arguments that install one snap: `install <name> <channel flag>`,
/// followed by `--classic` for a snap with classic confinement.
pub open spec fn snap_install_args(snap: SnapPackageView) -> Seq<Seq<char>> {
    let base = seq!["install"@, snap.name, channel_flag(snap.channel)];
    if snap.classic {
        base.push("--classic"@)
    } else {
        base
    }
}

impl RunnableOperation for SnapPackage {
    open spec fn spec_command_name(&self, system_details: SystemDetails) -> Result<
        Seq<char>,
        ErrorView,
    > {
        if self.name@.len() == 0 {
            Err(ErrorView::EmptyCommand)
        } else {
            Ok("snap"@)
        }
    }

    open spec fn spec_args(&self, system_details: SystemDetails) -> Option<Seq<Seq<char>>> {
        Some(snap_install_args(self@))
    }

    open spec fn spec_needs_root(&self) -> bool {
        true
    }

    fn command_name(&self, system_details: SystemDetails) -> (r: Result<String, Error>) {
        if self.name.as_str().is_empty() {
            Err(Error::EmptyCommand)
        } else {
            proof {
                reveal_strlit("snap");
            }
            Ok(String::from_str("snap"))
        }
    }

    fn args(&self, system_details: SystemDetails) -> (r: Option<Vec<String>>) {
        let mut args: Vec<String> = Vec::new();
        args.push(String::from_str("install"));
        args.push(self.name.clone());
        args.push(self.channel.to_flag());
        assert(args.deep_view() =~= seq!["install"@, self.name@, channel_flag(self.channel)]);
        if self.classic {
            let ghost before = args.deep_view();
            args.push(String::from_str("--classic"));
            assert(args.deep_view() =~= before.push("--classic"@));
        }
        Some(args)
    }

    fn needs_root(&self) -> (r: bool) {
        true
    }
}

/// Snaps that install from the stable channel without classic
/// confinement.
#[derive(Debug, PartialEq, Eq)]
pub struct StandardSnaps {
    /// The names of the snaps to install.
    pub names: Vec<String>,
}

impl View for StandardSnaps {
    type V = Seq<Seq<char>>;

    open spec fn view(&self) -> Seq<Seq<char>> {
        self.names.deep_view()
    }
}

impl Clone for StandardSnaps {
    fn clone(&self) -> (r: StandardSnaps)
        ensures
            r@ == self@,
    {
        StandardSnaps { names: self.names.clone() }
    }
}

impl RunnableOperation for StandardSnaps {
    open spec fn spec_command_name(&self, system_details: SystemDetails) -> Result<
        Seq<char>,
        ErrorView,
    > {
        if self@.len() == 0 {
            Err(ErrorView::NoPackagesConfigured)
        } else {
            Ok("snap"@)
        }
    }

    open spec fn spec_args(&self, system_details: SystemDetails) -> Option<Seq<Seq<char>>> {
        if self@.len() == 0 {
            None
        } else {
            Some(seq!["install"@] + self@)
        }
    }

    open spec fn spec_needs_root(&self) -> bool {
        true
    }

    fn command_name(&self, system_details: SystemDetails) -> (r: Result<String, Error>) {
        if self.names.len() == 0 {
            Err(Error::NoPackagesConfigured)
        } else {
            proof {
                reveal_strlit("snap");
            }
            Ok(String::from_str("snap"))
        }
    }

    fn args(&self, system_details: SystemDetails) -> (r: Option<Vec<String>>) {
        if self.names.len() == 0 {
            None
        } else {
            let mut args: Vec<String> = Vec::new();
            args.push(String::from_str("install"));
            assert(args.deep_view() =~= seq!["install"@]);
            append_texts(&mut args, &self.names);
            Some(args)
        }
    }

    fn needs_root(&self) -> (r: bool) {
        true
    }
}

/// The snaps of a configuration.
#[derive(Debug, PartialEq, Eq)]
pub struct Snaps {
    /// Snaps that install from the stable channel without classic
    /// confinement.
    pub standard_snaps: StandardSnaps,
    /// Snaps that need another channel or classic confinement.
    pub alternate_snaps: Option<Vec<SnapPackage>>,
}

} // verus!
