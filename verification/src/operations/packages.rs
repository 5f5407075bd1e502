//! The package phase: an optional refresh of the system, then the install
//! of the configured packages.

use vstd::prelude::*;
use crate::configuration::system::{
    package_manager_view,
    PackageManagerView,
    SystemDetails,
    TargetOperatingSystem,
};
use crate::configuration::Configuration;
use crate::error::ErrorView;
use crate::operations::{
    empty_plan,
    invocation_for,
    plan_then,
    resolution,
    InvocationView,
    Plan,
    PlanView,
};

verus! {

/// What a refresh of the system resolves to: the package manager, run
/// with elevated privileges on a subcommand and the autoconfirm flag.
/// Without a package manager there is no command to run.
pub open spec fn refresh_resolution(pm: PackageManagerView, subcommand: Seq<char>) -> Result<
    InvocationView,
    ErrorView,
> {
    if pm.name.len() == 0 {
        Err(ErrorView::EmptyCommand)
    } else {
        Ok(invocation_for(pm.name, Some(seq![subcommand, pm.autoconfirm]), true))
    }
}

/// The plan that refreshes a system: the update, unless the package
/// manager updates and upgrades by the same subcommand, then the upgrade.
/// Nothing is planned where no refresh was asked for.
pub open spec fn upgrade_plan(update_system: bool, system_details: SystemDetails) -> PlanView {
    let pm = package_manager_view(system_details.target_os);
    if !update_system {
        empty_plan()
    } else if pm.update_subcommand == pm.upgrade_subcommand {
        plan_then(empty_plan(), refresh_resolution(pm, pm.upgrade_subcommand))
    } else {
        plan_then(
            plan_then(empty_plan(), refresh_resolution(pm, pm.update_subcommand)),
            refresh_resolution(pm, pm.upgrade_subcommand),
        )
    }
}

/// The plan of the package phase: the refresh of the system, then the
/// install of the package list, if there is one.
pub open spec fn install_plan(config: &Configuration) -> PlanView {
    let refresh = upgrade_plan(config.update_system, config.system_details);
    match config.package_list {
        Some(packages) => plan_then(refresh, resolution(&packages, config.system_details)),
        None => refresh,
    }
}

/// On a system without a package manager a refresh runs nothing and
/// fails for want of a command.
pub proof fn lemma_unknown_system_cannot_refresh()
    ensures
        upgrade_plan(true, SystemDetails { target_os: TargetOperatingSystem::Unknown }) == (
        PlanView { invocations: Seq::empty(), failure: Some(ErrorView::EmptyCommand) }),
{
}

/// Where the package manager updates and upgrades by the same subcommand
/// a refresh runs one command, otherwise two; each runs with elevated
/// privileges.
pub proof fn lemma_refresh_commands(system_details: SystemDetails)
    requires
        system_details.target_os != TargetOperatingSystem::Unknown,
    ensures
        upgrade_plan(true, system_details).failure is None,
        upgrade_plan(true, system_details).invocations.len() == if package_manager_view(
            system_details.target_os,
        ).update_subcommand == package_manager_view(system_details.target_os).upgrade_subcommand {
            1nat
        } else {
            2nat
        },
        forall|i: int|
            0 <= i < upgrade_plan(true, system_details).invocations.len() ==> (
            #[trigger] upgrade_plan(true, system_details).invocations[i]).elevated,
{
    reveal_strlit("pacman");
    reveal_strlit("apt-get");
    reveal_strlit("dnf");
    reveal_strlit("yum");
}

/// Plans the refresh of the system that precedes the package install.
pub fn upgrade_system(config: &Configuration) -> (r: Plan)
    ensures
        r@ == upgrade_plan(config.update_system, config.system_details),
{
    let mut plan = Plan::new();
    if !config.update_system {
        return plan;
    }
    let package_manager = config.system_details.package_manager();
    match package_manager.update_operation() {
        Some(update) => {
            plan.add(&update, config.system_details);
        },
        None => {},
    }
    let upgrade = package_manager.upgrade_operation();
    plan.add(&upgrade, config.system_details);
    plan
}

/// Plans the package phase: the system's package manager installs the
/// packages of the configuration, after a refresh where one is asked for.
pub fn install_packages(config: &Configuration) -> (r: Plan)
    ensures
        r@ == install_plan(config),
{
    let mut plan = upgrade_system(config);
    match &config.package_list {
        Some(packages) => {
            plan.add(packages, config.system_details);
        },
        None => {},
    }
    plan
}

} // verus!
