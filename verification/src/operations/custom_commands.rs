//! The command phase: the custom commands in the order given, then the
//! command sets, each in the order of its ids.

use vstd::prelude::*;
use crate::configuration::command::{CustomCommand, CustomCommandView};
use crate::configuration::commandset::{
    running_order,
    validation,
    CommandSet,
    OrderedCommandView,
};
use crate::configuration::system::SystemDetails;
use crate::configuration::Configuration;
use crate::error::ErrorView;
use crate::operations::{
    empty_plan,
    invocation_for,
    plan_concat,
    plan_then,
    plan_then_all,
    resolution,
    InvocationView,
    Plan,
    PlanView,
};

verus! {

/// What a custom command resolves to.
pub open spec fn command_resolution(command: CustomCommandView) -> Result<
    InvocationView,
    ErrorView,
> {
    if command.command.len() == 0 {
        Err(ErrorView::EmptyCommand)
    } else {
        Ok(invocation_for(command.command, command.args, command.needs_root))
    }
}

/// What a list of custom commands resolves to, one by one.
pub open spec fn command_steps(commands: Seq<CustomCommandView>) -> Seq<
    Result<InvocationView, ErrorView>,
> {
    Seq::new(commands.len(), |i: int| command_resolution(commands[i]))
}

/// What the commands of a set resolve to, one by one.
pub open spec fn ordered_steps(commands: Seq<OrderedCommandView>) -> Seq<
    Result<InvocationView, ErrorView>,
> {
    Seq::new(commands.len(), |i: int| command_resolution(commands[i].command))
}

/// The plan of one command set: its commands in ascending order of their
/// ids. A set in which an id occurs twice plans nothing and fails with the
/// error of its validation.
pub open spec fn collected_plan(set: Seq<OrderedCommandView>) -> PlanView {
    match validation(set) {
        Ok(()) => plan_then_all(empty_plan(), ordered_steps(running_order(set))),
        Err(e) => PlanView { invocations: Seq::empty(), failure: Some(e) },
    }
}

/// `start` followed by the plan of each set, in order.
pub open spec fn plan_then_sets(start: PlanView, sets: Seq<Seq<OrderedCommandView>>) -> PlanView
    decreases sets.len(),
{
    if sets.len() == 0 {
        start
    } else {
        plan_concat(plan_then_sets(start, sets.drop_last()), collected_plan(sets.last()))
    }
}

/// The custom commands of an optional list.
pub open spec fn listed_commands(commands: Option<Vec<CustomCommand>>) -> Seq<CustomCommandView> {
    match commands {
        Some(list) => list.deep_view(),
        None => Seq::empty(),
    }
}

/// The command sets of an optional list.
pub open spec fn listed_sets(sets: Option<Vec<CommandSet>>) -> Seq<Seq<OrderedCommandView>> {
    match sets {
        Some(list) => list.deep_view(),
        None => Seq::empty(),
    }
}

/// The plan of the command phase.
pub open spec fn custom_commands_plan(config: &Configuration) -> PlanView {
    plan_then_sets(
        plan_then_all(empty_plan(), command_steps(listed_commands(config.custom_commands))),
        listed_sets(config.command_sets),
    )
}

/// Plans the commands of one set, in ascending order of their ids. The
/// set is validated first.
pub fn run_collected_commands(command_set: &CommandSet, config: &Configuration) -> (r: Plan)
    ensures
        r@ == collected_plan(command_set@),
{
    let mut plan = Plan::new();
    match command_set.validate() {
        Ok(()) => {},
        Err(e) => {
            plan.failure = Some(e);
            return plan;
        },
    }
    let commands = command_set.get_runnable_commands();
    let ghost steps = ordered_steps(running_order(command_set@));
    let mut i: usize = 0;
    assert(steps.take(0) =~= Seq::empty());
    while i < commands.len()
        invariant
            i <= commands.len(),
            commands.deep_view() == running_order(command_set@),
            steps == ordered_steps(running_order(command_set@)),
            plan@ == plan_then_all(empty_plan(), steps.take(i as int)),
        decreases commands.len() - i,
    {
        assert(steps.take(i + 1).drop_last() =~= steps.take(i as int));
        assert(steps.take(i + 1).last() == command_resolution(commands[i as int]@.command));
        plan.add(&commands[i], config.system_details);
        i = i + 1;
    }
    assert(steps.take(commands.len() as int) =~= steps);
    plan
}

/// Plans the command phase: every custom command, then every command set.
pub fn run_custom_commands(config: &Configuration) -> (r: Plan)
    ensures
        r@ == custom_commands_plan(config),
{
    let mut plan = Plan::new();
    match &config.custom_commands {
        Some(commands) => {
            let ghost steps = command_steps(commands.deep_view());
            let mut i: usize = 0;
            assert(steps.take(0) =~= Seq::empty());
            while i < commands.len()
                invariant
                    i <= commands.len(),
                    steps == command_steps(commands.deep_view()),
                    plan@ == plan_then_all(empty_plan(), steps.take(i as int)),
                decreases commands.len() - i,
            {
                assert(steps.take(i + 1).drop_last() =~= steps.take(i as int));
                assert(steps.take(i + 1).last() == command_resolution(commands[i as int]@));
                plan.add(&commands[i], config.system_details);
                i = i + 1;
            }
            assert(steps.take(commands.len() as int) =~= steps);
        },
        None => {
            assert(command_steps(listed_commands(config.custom_commands)).len() == 0);
        },
    }
    let ghost start = plan@;
    match &config.command_sets {
        Some(command_sets) => {
            let ghost sets = command_sets.deep_view();
            let mut i: usize = 0;
            assert(sets.take(0) =~= Seq::empty());
            while i < command_sets.len()
                invariant
                    i <= command_sets.len(),
                    sets == command_sets.deep_view(),
                    plan@ == plan_then_sets(start, sets.take(i as int)),
                decreases command_sets.len() - i,
            {
                assert(sets.take(i + 1).drop_last() =~= sets.take(i as int));
                assert(sets.take(i + 1).last() == command_sets[i as int]@);
                let part = run_collected_commands(&command_sets[i], config);
                plan.append(part);
                i = i + 1;
            }
            assert(sets.take(command_sets.len() as int) =~= sets);
        },
        None => {},
    }
    plan
}

} // verus!
