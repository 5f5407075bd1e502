//! Packages to install through the host's package manager: a list common
//! to every distribution and lists that apply to one distribution only.

use vstd::prelude::*;
use crate::configuration::system::{
    os_for_name,
    package_manager_view,
    present,
    PackageManagerView,
    SystemDetails,
    TargetOperatingSystem,
};
use crate::error::{Error, ErrorView};
use crate::operations::RunnableOperation;
use crate::text::append_texts;

verus! {

/// Packages that exist on one distribution only, or under another name.
#[derive(Debug, PartialEq, Eq)]
pub struct DistroPackages {
    /// The operating system these packages are for, by one of its release
    /// identifiers (`debian`, `arch`, `ubuntu`, ...).
    pub target_os: String,
    /// The names of the packages to install there.
    pub packages: Option<Vec<String>>,
}

/// The mathematical content of a [`DistroPackages`].
pub struct DistroPackagesView {
    pub target_os: Seq<char>,
    pub packages: Option<Seq<Seq<char>>>,
}

impl View for DistroPackages {
    type V = DistroPackagesView;

    open spec fn view(&self) -> DistroPackagesView {
        DistroPackagesView { target_os: self.target_os@, packages: self.packages.deep_view() }
    }
}

impl DeepView for DistroPackages {
    type V = DistroPackagesView;

    open spec fn deep_view(&self) -> DistroPackagesView {
        self@
    }
}

/// The packages of an optional list: none for an absent list.
pub open spec fn listed(packages: Option<Seq<Seq<char>>>) -> Seq<Seq<char>> {
    match packages {
        Some(names) => names,
        None => Seq::empty(),
    }
}

impl DistroPackages {
    /// Whether this entry names any package.
    pub fn has_packages(&self) -> (r: bool)
        ensures
            r == (listed(self@.packages).len() > 0),
    {
        match &self.packages {
            Some(pkg) => pkg.len() > 0,
            None => false,
        }
    }
}

/// A batch of packages to install: those common to all distributions and
/// those of single distributions.
#[derive(Debug, PartialEq, Eq)]
pub struct PackageList {
    /// Packages that have the same name on every distribution.
    pub base_packages: Option<Vec<String>>,
    /// Packages of single distributions.
    pub distro_packages: Option<Vec<DistroPackages>>,
}

/// The mathematical content of a [`PackageList`].
pub struct PackageListView {
    pub base_packages: Option<Seq<Seq<char>>>,
    pub distro_packages: Option<Seq<DistroPackagesView>>,
}

impl View for PackageList {
    type V = PackageListView;

    open spec fn view(&self) -> PackageListView {
        PackageListView {
            base_packages: self.base_packages.deep_view(),
            distro_packages: self.distro_packages.deep_view(),
        }
    }
}

/// The packages of the first entry whose target resolves to `os`; none
/// where no entry does.
pub open spec fn first_match(entries: Seq<DistroPackagesView>, os: TargetOperatingSystem) -> Seq<
    Seq<char>,
>
    decreases entries.len(),
{
    if entries.len() == 0 {
        Seq::empty()
    } else if os_for_name(entries[0].target_os) == os {
        listed(entries[0].packages)
    } else {
        first_match(entries.skip(1), os)
    }
}

/// The packages that a list overrides for `os`.
pub open spec fn override_packages(list: PackageListView, os: TargetOperatingSystem) -> Seq<
    Seq<char>,
> {
    match list.distro_packages {
        Some(entries) => first_match(entries, os),
        None => Seq::empty(),
    }
}

/// Every package that a list installs on `os`: the base packages, then the
/// packages overridden for `os`.
pub open spec fn all_packages(list: PackageListView, os: TargetOperatingSystem) -> Seq<Seq<char>> {
    listed(list.base_packages) + override_packages(list, os)
}

/// The arguments that precede the package names: the install subcommand
/// and the autoconfirm flag, each only if the package manager has it.
pub open spec fn install_prefix(pm: PackageManagerView) -> Seq<Seq<char>> {
    let install = match present(pm.install_subcommand) {
        Some(text) => seq![text],
        None => Seq::empty(),
    };
    let confirm = match present(pm.autoconfirm) {
        Some(text) => seq![text],
        None => Seq::empty(),
    };
    install + confirm
}

impl PackageList {
    /// Whether the list names any base package.
    pub fn has_base_packages(&self) -> (r: bool)
        ensures
            r == (listed(self@.base_packages).len() > 0),
    {
        match &self.base_packages {
            Some(pkg) => pkg.len() > 0,
            None => false,
        }
    }

    /// Whether the list overrides any package for the current system.
    pub fn has_distro_packages(&self, system_details: SystemDetails) -> (r: bool)
        ensures
            r == (override_packages(self@, system_details.target_os).len() > 0),
    {
        let found = self.distro_packages_for(system_details.current_os());
        found.len() > 0
    }

    /// The packages overridden for `os`: those of the first entry whose
    /// target resolves to `os`.
    fn distro_packages_for(&self, os: TargetOperatingSystem) -> (r: Vec<String>)
        ensures
            r.deep_view() == override_packages(self@, os),
    {
        let mut found: Vec<String> = Vec::new();
        match &self.distro_packages {
            Some(entries) => {
                let ghost all = entries.deep_view();
                let mut i: usize = 0;
                assert(all.skip(0) =~= all);
                while i < entries.len()
                    invariant
                        i <= entries.len(),
                        all == entries.deep_view(),
                        self.distro_packages == Some(*entries),
                        found.deep_view() =~= Seq::<Seq<char>>::empty(),
                        first_match(all, os) == first_match(all.skip(i as int), os),
                    decreases entries.len() - i,
                {
                    let entry = &entries[i];
                    assert(all.skip(i as int)[0] == entry@);
                    assert(all.skip(i as int).skip(1) =~= all.skip(i + 1));
                    if TargetOperatingSystem::from(entry.target_os.as_str()) == os {
                        match &entry.packages {
                            Some(names) => {
                                append_texts(&mut found, names);
                                assert(found.deep_view() =~= names.deep_view());
                            },
                            None => {},
                        }
                        return found;
                    }
                    i = i + 1;
                }
                assert(all.skip(entries.len() as int).len() == 0);
                found
            },
            None => found,
        }
    }
}

/// The view of an optional list of texts that is `None` when the list is
/// empty.
pub open spec fn non_empty_list(names: Seq<Seq<char>>) -> Option<Seq<Seq<char>>> {
    if names.len() == 0 {
        None
    } else {
        Some(names)
    }
}

/// Every package to install on the given system: the base packages, then
/// those overridden for it. `None` when there is none at all.
pub fn extract_packages(package_list: &PackageList, details: SystemDetails) -> (r: Option<
    Vec<String>,
>)
    ensures
        r.deep_view() == non_empty_list(all_packages(package_list@, details.target_os)),
{
    let mut all: Vec<String> = Vec::new();
    match &package_list.base_packages {
        Some(names) => {
            append_texts(&mut all, names);
        },
        None => {},
    }
    let extra = package_list.distro_packages_for(details.current_os());
    append_texts(&mut all, &extra);
    assert(all.deep_view() =~= all_packages(package_list@, details.target_os));
    if all.len() == 0 {
        None
    } else {
        Some(all)
    }
}

/// On a system without a package manager no package list resolves to a
/// command: one that lists nothing fails for that reason, any other for
/// want of a package manager, and neither has arguments.
pub proof fn lemma_unknown_system_cannot_install(list: PackageList)
    ensures
        list.spec_command_name(SystemDetails { target_os: TargetOperatingSystem::Unknown })
            == if all_packages(list@, TargetOperatingSystem::Unknown).len() == 0 {
            Err::<Seq<char>, ErrorView>(ErrorView::NoPackagesConfigured)
        } else {
            Err::<Seq<char>, ErrorView>(ErrorView::NoPackageManager)
        },
        list.spec_args(SystemDetails { target_os: TargetOperatingSystem::Unknown }) is None,
{
}

/// A package list has arguments exactly when its command name resolves,
/// and a resolved name is never empty: no arguments come with an empty
/// command name.
pub proof fn lemma_arguments_come_with_a_name(list: PackageList, system_details: SystemDetails)
    ensures
        list.spec_args(system_details) is Some <==> list.spec_command_name(system_details) is Ok,
        list.spec_command_name(system_details) matches Ok(name) ==> name.len() > 0,
{
}

impl RunnableOperation for PackageList {
    open spec fn spec_command_name(&self, system_details: SystemDetails) -> Result<
        Seq<char>,
        ErrorView,
    > {
        if all_packages(self@, system_details.target_os).len() == 0 {
            Err(ErrorView::NoPackagesConfigured)
        } else {
            match present(package_manager_view(system_details.target_os).name) {
                Some(name) => Ok(name),
                None => Err(ErrorView::NoPackageManager),
            }
        }
    }

    open spec fn spec_args(&self, system_details: SystemDetails) -> Option<Seq<Seq<char>>> {
        let packages = all_packages(self@, system_details.target_os);
        let pm = package_manager_view(system_details.target_os);
        if packages.len() == 0 || pm.name.len() == 0 {
            None
        } else {
            Some(install_prefix(pm) + packages)
        }
    }

    open spec fn spec_needs_root(&self) -> bool {
        true
    }

    fn needs_root(&self) -> (r: bool) {
        true
    }

    fn command_name(&self, system_details: SystemDetails) -> (r: Result<String, Error>) {
        if !self.has_base_packages() && !self.has_distro_packages(system_details) {
            return Err(Error::NoPackagesConfigured);
        }
        match system_details.package_manager().name() {
            Some(name) => Ok(name),
            None => Err(Error::NoPackageManager),
        }
    }

    fn args(&self, system_details: SystemDetails) -> (r: Option<Vec<String>>) {
        let packages = match extract_packages(self, system_details) {
            Some(packages) => packages,
            None => {
                return None;
            },
        };
        let package_manager = system_details.package_manager();
        if !package_manager.can_run() {
            return None;
        }
        let mut install_args: Vec<String> = Vec::new();
        match package_manager.install_subcommand() {
            Some(install_command) => {
                install_args.push(install_command);
            },
            None => {},
        }
        match package_manager.autoconfirm() {
            Some(autoconfirm) => {
                install_args.push(autoconfirm);
            },
            None => {},
        }
        assert(install_args.deep_view() =~= install_prefix(package_manager@));
        append_texts(&mut install_args, &packages);
        Some(install_args)
    }
}

} // verus!
