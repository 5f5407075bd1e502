//! The snap phase: the standard snaps in one command, then each alternate
//! snap in a command of its own.

use vstd::prelude::*;
use crate::configuration::snap::{snap_install_args, SnapPackage, SnapPackageView};
use crate::configuration::system::SystemDetails;
use crate::configuration::Configuration;
use crate::error::ErrorView;
use crate::operations::{
    empty_plan,
    invocation_for,
    plan_then,
    plan_then_all,
    resolution,
    InvocationView,
    Plan,
    PlanView,
};

verus! {

/// What the install of one snap resolves to.
pub open spec fn snap_resolution(snap: SnapPackageView) -> Result<InvocationView, ErrorView> {
    if snap.name.len() == 0 {
        Err(ErrorView::EmptyCommand)
    } else {
        Ok(invocation_for("snap"@, Some(snap_install_args(snap)), true))
    }
}

/// What the installs of a list of snaps resolve to, one by one.
pub open spec fn snap_steps(snaps: Seq<SnapPackageView>) -> Seq<Result<InvocationView, ErrorView>> {
    Seq::new(snaps.len(), |i: int| snap_resolution(snaps[i]))
}

/// The alternate snaps of an optional list.
pub open spec fn alternates(snaps: Option<Vec<SnapPackage>>) -> Seq<SnapPackageView> {
    match snaps {
        Some(list) => list.deep_view(),
        None => Seq::empty(),
    }
}

/// The plan of the snap phase. Without a snap section nothing is planned.
pub open spec fn snap_plan(config: &Configuration) -> PlanView {
    match config.snaps {
        Some(snaps) => plan_then_all(
            plan_then(empty_plan(), resolution(&snaps.standard_snaps, config.system_details)),
            snap_steps(alternates(snaps.alternate_snaps)),
        ),
        None => empty_plan(),
    }
}

/// Plans the snap phase.
pub fn install_snap_packages(config: &Configuration) -> (r: Plan)
    ensures
        r@ == snap_plan(config),
{
    let mut plan = Plan::new();
    match &config.snaps {
        Some(snaps) => {
            plan.add(&snaps.standard_snaps, config.system_details);
            let ghost start = plan@;
            match &snaps.alternate_snaps {
                Some(additional_snaps) => {
                    let ghost steps = snap_steps(additional_snaps.deep_view());
                    let mut i: usize = 0;
                    assert(steps.take(0) =~= Seq::empty());
                    while i < additional_snaps.len()
                        invariant
                            i <= additional_snaps.len(),
                            steps == snap_steps(additional_snaps.deep_view()),
                            plan@ == plan_then_all(start, steps.take(i as int)),
                        decreases additional_snaps.len() - i,
                    {
                        assert(steps.take(i + 1).drop_last() =~= steps.take(i as int));
                        assert(steps.take(i + 1).last() == snap_resolution(
                            additional_snaps[i as int]@,
                        ));
                        plan.add(&additional_snaps[i], config.system_details);
                        i = i + 1;
                    }
                    assert(steps.take(additional_snaps.len() as int) =~= steps);
                },
                None => {
                    assert(snap_steps(alternates(snaps.alternate_snaps)).len() == 0);
                },
            }
        },
        None => {},
    }
    plan
}

} // verus!
