//! Sets of commands that run in the order of their ids.

use vstd::prelude::*;
use crate::configuration::command::{CustomCommand, CustomCommandView};
use crate::configuration::system::SystemDetails;
use crate::error::{outcome_view, Error, ErrorView};
use crate::operations::RunnableOperation;

verus! {

/// A command with the id that orders it within its set. Commands run in
/// ascending order of their ids.
#[derive(Debug, PartialEq, Eq)]
pub struct OrderedCommand {
    /// The ordering id of this command.
    pub id: u8,
    /// The command to run.
    pub command: CustomCommand,
}

/// The mathematical content of an [`OrderedCommand`].
pub struct OrderedCommandView {
    pub id: u8,
    pub command: CustomCommandView,
}

impl View for OrderedCommand {
    type V = OrderedCommandView;

    open spec fn view(&self) -> OrderedCommandView {
        OrderedCommandView { id: self.id, command: self.command@ }
    }
}

impl DeepView for OrderedCommand {
    type V = OrderedCommandView;

    open spec fn deep_view(&self) -> OrderedCommandView {
        self@
    }
}

impl Clone for OrderedCommand {
    fn clone(&self) -> (r: OrderedCommand)
        ensures
            r@ == self@,
    {
        OrderedCommand { id: self.id, command: self.command.clone() }
    }
}

impl RunnableOperation for OrderedCommand {
    open spec fn spec_command_name(&self, system_details: SystemDetails) -> Result<
        Seq<char>,
        ErrorView,
    > {
        self.command.spec_command_name(system_details)
    }

    open spec fn spec_args(&self, system_details: SystemDetails) -> Option<Seq<Seq<char>>> {
        self.command.spec_args(system_details)
    }

    open spec fn spec_needs_root(&self) -> bool {
        self.command.spec_needs_root()
    }

    fn command_name(&self, system_details: SystemDetails) -> (r: Result<String, Error>) {
        self.command.command_name(system_details)
    }

    fn args(&self, system_details: SystemDetails) -> (r: Option<Vec<String>>) {
        self.command.args(system_details)
    }

    fn needs_root(&self) -> (r: bool) {
        self.command.needs_root()
    }
}

/// A set of commands to run in the order of their ids. A set is valid when
/// no id occurs twice.
#[derive(Debug, PartialEq, Eq)]
pub struct CommandSet {
    /// The commands of the set, in the order in which they were given.
    pub commands: Vec<OrderedCommand>,
}

impl View for CommandSet {
    type V = Seq<OrderedCommandView>;

    open spec fn view(&self) -> Seq<OrderedCommandView> {
        self.commands.deep_view()
    }
}

impl DeepView for CommandSet {
    type V = Seq<OrderedCommandView>;

    open spec fn deep_view(&self) -> Seq<OrderedCommandView> {
        self@
    }
}

/// How many of `commands` carry the ordering id `id`.
pub open spec fn occurrences(commands: Seq<OrderedCommandView>, id: u8) -> nat
    decreases commands.len(),
{
    if commands.len() == 0 {
        0
    } else {
        occurrences(commands.drop_last(), id) + if commands.last().id == id {
            1nat
        } else {
            0nat
        }
    }
}

/// No ordering id occurs more than once.
pub open spec fn ids_unique(commands: Seq<OrderedCommandView>) -> bool {
    forall|id: u8| occurrences(commands, id) <= 1
}

/// `ids` lists, in ascending order and each once, exactly the ordering ids
/// below `bound` that occur more than once in `commands`.
pub open spec fn lists_duplicates(
    ids: Seq<u8>,
    commands: Seq<OrderedCommandView>,
    bound: int,
) -> bool {
    &&& forall|i: int, j: int| 0 <= i < j < ids.len() ==> ids[i] < ids[j]
    &&& forall|i: int| 0 <= i < ids.len() ==> ids[i] < bound && occurrences(commands, ids[i]) >= 2
    &&& forall|id: u8| id < bound && occurrences(commands, id) >= 2 ==> ids.contains(id)
}

/// The ordering ids below `bound` that occur more than once in
/// `commands`, in ascending order.
pub open spec fn duplicates_below(commands: Seq<OrderedCommandView>, bound: nat) -> Seq<u8>
    decreases bound,
{
    if bound == 0 {
        Seq::empty()
    } else if occurrences(commands, (bound - 1) as u8) >= 2 {
        duplicates_below(commands, (bound - 1) as nat).push((bound - 1) as u8)
    } else {
        duplicates_below(commands, (bound - 1) as nat)
    }
}

/// Every ordering id that occurs more than once in `commands`, in
/// ascending order.
pub open spec fn duplicate_ids(commands: Seq<OrderedCommandView>) -> Seq<u8> {
    duplicates_below(commands, 256)
}

/// What the validation of a set of commands gives: success when no
/// ordering id occurs twice, else the error that lists the ids that do.
pub open spec fn validation(commands: Seq<OrderedCommandView>) -> Result<(), ErrorView> {
    if duplicate_ids(commands).len() == 0 {
        Ok(())
    } else {
        Err(ErrorView::DuplicateOrderingId(duplicate_ids(commands)))
    }
}

/// The commands with ordering id `id`, in the order in which they stand
/// in `commands`.
pub open spec fn with_id(commands: Seq<OrderedCommandView>, id: u8) -> Seq<OrderedCommandView>
    decreases commands.len(),
{
    if commands.len() == 0 {
        Seq::empty()
    } else if commands.last().id == id {
        with_id(commands.drop_last(), id).push(commands.last())
    } else {
        with_id(commands.drop_last(), id)
    }
}

/// The commands with an ordering id below `bound`, in ascending order of
/// their ids; commands of one id keep their order.
pub open spec fn ordered_below(commands: Seq<OrderedCommandView>, bound: nat) -> Seq<
    OrderedCommandView,
>
    decreases bound,
{
    if bound == 0 {
        Seq::empty()
    } else {
        ordered_below(commands, (bound - 1) as nat) + with_id(commands, (bound - 1) as u8)
    }
}

/// The commands in the order in which they run: ascending by ordering id,
/// commands of one id in the order in which they were given.
pub open spec fn running_order(commands: Seq<OrderedCommandView>) -> Seq<OrderedCommandView> {
    ordered_below(commands, 256)
}

impl CommandSet {
    /// A set of the given commands.
    pub fn new(commands: Vec<OrderedCommand>) -> (r: CommandSet)
        ensures
            r.commands == commands,
    {
        CommandSet { commands }
    }

    /// How many commands of the set carry the ordering id `id`.
    fn count(&self, id: u8) -> (n: usize)
        ensures
            n == occurrences(self@, id),
    {
        let mut n: usize = 0;
        let mut i: usize = 0;
        assert(self@.take(0) =~= Seq::<OrderedCommandView>::empty());
        while i < self.commands.len()
            invariant
                i <= self.commands.len(),
                n <= i,
                n == occurrences(self@.take(i as int), id),
            decreases self.commands.len() - i,
        {
            assert(self@.take(i + 1).drop_last() =~= self@.take(i as int));
            assert(self@.take(i + 1).last() == self.commands[i as int]@);
            if self.commands[i].id == id {
                n = n + 1;
            }
            i = i + 1;
        }
        assert(self@.take(self.commands.len() as int) =~= self@);
        n
    }

    /// Checks that no ordering id occurs twice. Otherwise the error lists
    /// every id that does, in ascending order and each once.
    pub fn validate(&self) -> (r: Result<(), Error>)
        ensures
            outcome_view(r) == validation(self@),
            r is Ok <==> ids_unique(self@),
            r is Err ==> lists_duplicates(duplicate_ids(self@), self@, 256),
    {
        let mut duplicates: Vec<u8> = Vec::new();
        let mut candidate: u16 = 0;
        while candidate < 256
            invariant
                candidate <= 256,
                lists_duplicates(duplicates@, self@, candidate as int),
                duplicates@ == duplicates_below(self@, candidate as nat),
            decreases 256 - candidate,
        {
            let id: u8 = candidate as u8;
            let ghost before = duplicates@;
            if self.count(id) > 1 {
                duplicates.push(id);
                assert forall|other: u8|
                    other < candidate + 1 && occurrences(self@, other) >= 2 implies duplicates@.contains(
                    other,
                ) by {
                    if other == id {
                        assert(duplicates@[before.len() as int] == id);
                    } else {
                        assert(before.contains(other));
                        let k = choose|k: int| 0 <= k < before.len() && before[k] == other;
                        assert(duplicates@[k] == other);
                    }
                }
            }
            candidate = candidate + 1;
        }
        if duplicates.len() == 0 {
            assert forall|id: u8| occurrences(self@, id) <= 1 by {
                if occurrences(self@, id) >= 2 {
                    assert(duplicates@.contains(id));
                }
            }
            Ok(())
        } else {
            assert(occurrences(self@, duplicates@[0]) >= 2);
            Err(Error::DuplicateOrderingId(duplicates))
        }
    }

    /// The commands of the set in the order in which they run: ascending
    /// by ordering id.
    pub fn get_runnable_commands(&self) -> (r: Vec<OrderedCommand>)
        ensures
            r.deep_view() == running_order(self@),
    {
        let mut ordered: Vec<OrderedCommand> = Vec::new();
        let mut bound: u16 = 0;
        assert(ordered.deep_view() =~= ordered_below(self@, 0));
        while bound < 256
            invariant
                bound <= 256,
                ordered.deep_view() == ordered_below(self@, bound as nat),
            decreases 256 - bound,
        {
            let id: u8 = bound as u8;
            let mut i: usize = 0;
            assert(self@.take(0) =~= Seq::<OrderedCommandView>::empty());
            assert(ordered.deep_view() =~= ordered_below(self@, bound as nat) + with_id(
                self@.take(0),
                id,
            ));
            while i < self.commands.len()
                invariant
                    i <= self.commands.len(),
                    id == bound,
                    ordered.deep_view() == ordered_below(self@, bound as nat) + with_id(
                        self@.take(i as int),
                        id,
                    ),
                decreases self.commands.len() - i,
            {
                assert(self@.take(i + 1).drop_last() =~= self@.take(i as int));
                assert(self@.take(i + 1).last() == self.commands[i as int]@);
                let ghost before = ordered.deep_view();
                if self.commands[i].id == id {
                    ordered.push(self.commands[i].clone());
                    assert(ordered.deep_view() =~= before.push(self.commands[i as int]@));
                }
                i = i + 1;
                assert(ordered.deep_view() =~= ordered_below(self@, bound as nat) + with_id(
                    self@.take(i as int),
                    id,
                ));
            }
            assert(self@.take(self.commands.len() as int) =~= self@);
            bound = bound + 1;
        }
        ordered
    }
}

/// An ordering id occurs more than once exactly when two different
/// commands carry it.
pub proof fn lemma_occurs_twice(commands: Seq<OrderedCommandView>, id: u8)
    ensures
        occurrences(commands, id) >= 2 <==> exists|i: int, j: int|
            0 <= i < j < commands.len() && #[trigger] commands[i].id == id
                && #[trigger] commands[j].id == id,
        occurrences(commands, id) >= 1 <==> exists|i: int|
            0 <= i < commands.len() && #[trigger] commands[i].id == id,
        occurrences(commands, id) <= commands.len(),
    decreases commands.len(),
{
    if commands.len() > 0 {
        let front = commands.drop_last();
        let n = front.len() as int;
        lemma_occurs_twice(front, id);
        if occurrences(commands, id) >= 1 {
            if commands.last().id == id {
                assert(commands[n].id == id);
            } else {
                let i = choose|i: int| 0 <= i < front.len() && #[trigger] front[i].id == id;
                assert(commands[i].id == id);
            }
        }
        if exists|i: int| 0 <= i < commands.len() && #[trigger] commands[i].id == id {
            let i = choose|i: int| 0 <= i < commands.len() && #[trigger] commands[i].id == id;
            if i < n {
                assert(front[i].id == id);
            }
        }
        if occurrences(commands, id) >= 2 {
            if commands.last().id == id {
                let i = choose|i: int| 0 <= i < front.len() && #[trigger] front[i].id == id;
                assert(commands[i].id == id && commands[n].id == id);
            } else {
                let (i, j) = choose|i: int, j: int|
                    0 <= i < j < front.len() && #[trigger] front[i].id == id
                        && #[trigger] front[j].id == id;
                assert(commands[i].id == id && commands[j].id == id);
            }
        }
        if exists|i: int, j: int|
            0 <= i < j < commands.len() && #[trigger] commands[i].id == id
                && #[trigger] commands[j].id == id {
            let (i, j) = choose|i: int, j: int|
                0 <= i < j < commands.len() && #[trigger] commands[i].id == id
                    && #[trigger] commands[j].id == id;
            assert(front[i].id == id);
            if j < n {
                assert(front[j].id == id);
            }
        }
    }
}

/// The ordering ids of a set are unique exactly when they are pairwise
/// distinct.
pub proof fn lemma_unique_means_distinct(commands: Seq<OrderedCommandView>)
    ensures
        ids_unique(commands) <==> forall|i: int, j: int|
            0 <= i < j < commands.len() ==> #[trigger] commands[i].id
                != #[trigger] commands[j].id,
{
    if ids_unique(commands) {
        assert forall|i: int, j: int| 0 <= i < j < commands.len() implies #[trigger] commands[i].id
            != #[trigger] commands[j].id by {
            if commands[i].id == commands[j].id {
                lemma_occurs_twice(commands, commands[i].id);
                assert(occurrences(commands, commands[i].id) <= 1);
            }
        }
    }
    if forall|i: int, j: int|
        0 <= i < j < commands.len() ==> #[trigger] commands[i].id != #[trigger] commands[j].id {
        assert forall|id: u8| occurrences(commands, id) <= 1 by {
            lemma_occurs_twice(commands, id);
        }
    }
}

proof fn lemma_duplicates_below(commands: Seq<OrderedCommandView>, bound: nat)
    requires
        bound <= 256,
    ensures
        lists_duplicates(duplicates_below(commands, bound), commands, bound as int),
    decreases bound,
{
    if bound > 0 {
        let before = duplicates_below(commands, (bound - 1) as nat);
        let id = (bound - 1) as u8;
        lemma_duplicates_below(commands, (bound - 1) as nat);
        let ids = duplicates_below(commands, bound);
        if occurrences(commands, id) >= 2 {
            assert(ids == before.push(id));
            assert forall|other: u8|
                other < bound && occurrences(commands, other) >= 2 implies ids.contains(other) by {
                if other == id {
                    assert(ids[before.len() as int] == id);
                } else {
                    assert(before.contains(other));
                    let k = choose|k: int| 0 <= k < before.len() && before[k] == other;
                    assert(ids[k] == other);
                }
            }
        }
    }
}

/// The duplicate ids of a set are listed in ascending order, each once,
/// and they are exactly the ids that occur more than once.
pub proof fn lemma_duplicates_listed(commands: Seq<OrderedCommandView>)
    ensures
        lists_duplicates(duplicate_ids(commands), commands, 256),
{
    lemma_duplicates_below(commands, 256);
}

/// A set validates exactly when its ordering ids are unique.
pub proof fn lemma_validation(commands: Seq<OrderedCommandView>)
    ensures
        validation(commands) is Ok <==> ids_unique(commands),
{
    lemma_duplicates_listed(commands);
    let ids = duplicate_ids(commands);
    if ids.len() == 0 {
        assert forall|id: u8| occurrences(commands, id) <= 1 by {
            if occurrences(commands, id) >= 2 {
                assert(ids.contains(id));
            }
        }
    } else {
        assert(occurrences(commands, ids[0]) >= 2);
    }
}

proof fn lemma_with_id_carries_id(commands: Seq<OrderedCommandView>, id: u8)
    ensures
        forall|k: int| 0 <= k < with_id(commands, id).len() ==> (#[trigger] with_id(
            commands,
            id,
        )[k]).id == id,
        with_id(commands, id).len() == occurrences(commands, id),
    decreases commands.len(),
{
    if commands.len() > 0 {
        lemma_with_id_carries_id(commands.drop_last(), id);
    }
}

proof fn lemma_with_id_of_joined(
    first: Seq<OrderedCommandView>,
    second: Seq<OrderedCommandView>,
    id: u8,
)
    ensures
        with_id(first + second, id) == with_id(first, id) + with_id(second, id),
    decreases second.len(),
{
    if second.len() == 0 {
        assert(first + second =~= first);
        assert(with_id(first, id) + with_id(second, id) =~= with_id(first, id));
    } else {
        let joined = first + second;
        assert(joined.drop_last() =~= first + second.drop_last());
        assert(joined.last() == second.last());
        lemma_with_id_of_joined(first, second.drop_last(), id);
        assert(with_id(joined, id) =~= with_id(first, id) + with_id(second, id));
    }
}

proof fn lemma_with_id_twice(commands: Seq<OrderedCommandView>, kept: u8, id: u8)
    ensures
        with_id(with_id(commands, kept), id) == if kept == id {
            with_id(commands, id)
        } else {
            Seq::empty()
        },
    decreases commands.len(),
{
    if commands.len() > 0 {
        let front = commands.drop_last();
        lemma_with_id_twice(front, kept, id);
        if commands.last().id == kept {
            let inner = with_id(front, kept).push(commands.last());
            assert(inner.drop_last() =~= with_id(front, kept));
            assert(inner.last() == commands.last());
        }
    }
}

proof fn lemma_ordered_below(commands: Seq<OrderedCommandView>, bound: nat, id: u8)
    requires
        bound <= 256,
    ensures
        with_id(ordered_below(commands, bound), id) == if id < bound {
            with_id(commands, id)
        } else {
            Seq::empty()
        },
        forall|k: int| 0 <= k < ordered_below(commands, bound).len() ==> (#[trigger] ordered_below(
            commands,
            bound,
        )[k]).id < bound,
        forall|i: int, j: int| 0 <= i < j < ordered_below(commands, bound).len() ==> ordered_below(
            commands,
            bound,
        )[i].id <= ordered_below(commands, bound)[j].id,
    decreases bound,
{
    if bound > 0 {
        let last = (bound - 1) as u8;
        let before = ordered_below(commands, (bound - 1) as nat);
        let bucket = with_id(commands, last);
        lemma_ordered_below(commands, (bound - 1) as nat, id);
        lemma_with_id_of_joined(before, bucket, id);
        lemma_with_id_twice(commands, last, id);
        lemma_with_id_carries_id(commands, last);
        let all = ordered_below(commands, bound);
        assert(all == before + bucket);
        assert(with_id(all, id) =~= if id < bound {
            with_id(commands, id)
        } else {
            Seq::empty()
        });
        assert forall|k: int| 0 <= k < all.len() implies (#[trigger] all[k]).id < bound by {
            if k < before.len() {
                assert(all[k] == before[k]);
            } else {
                assert(all[k] == bucket[k - before.len()]);
            }
        }
        assert forall|i: int, j: int| 0 <= i < j < all.len() implies all[i].id <= all[j].id by {
            if j < before.len() {
                assert(all[i] == before[i] && all[j] == before[j]);
            } else {
                assert(all[j] == bucket[j - before.len()]);
                if i < before.len() {
                    assert(all[i] == before[i]);
                } else {
                    assert(all[i] == bucket[i - before.len()]);
                }
            }
        }
    }
}

/// The running order is ascending by ordering id.
pub proof fn lemma_running_order_ascending(commands: Seq<OrderedCommandView>)
    ensures
        forall|i: int, j: int|
            0 <= i < j < running_order(commands).len() ==> running_order(commands)[i].id
                <= running_order(commands)[j].id,
{
    lemma_ordered_below(commands, 256, 0);
}

/// The running order holds, for every ordering id, the commands of that
/// id as the set holds them and in the same order: nothing is lost, added
/// or swapped among commands of one id.
pub proof fn lemma_running_order_keeps(commands: Seq<OrderedCommandView>, id: u8)
    ensures
        with_id(running_order(commands), id) == with_id(commands, id),
{
    lemma_ordered_below(commands, 256, id);
}

proof fn lemma_ordered_below_len(commands: Seq<OrderedCommandView>, bound: nat)
    requires
        bound <= 256,
        commands.len() > 0,
    ensures
        ordered_below(commands, bound).len() == ordered_below(commands.drop_last(), bound).len()
            + if commands.last().id < bound {
            1nat
        } else {
            0nat
        },
    decreases bound,
{
    if bound > 0 {
        lemma_ordered_below_len(commands, (bound - 1) as nat);
    }
}

proof fn lemma_ordered_below_nothing(bound: nat)
    ensures
        ordered_below(Seq::<OrderedCommandView>::empty(), bound).len() == 0,
    decreases bound,
{
    if bound > 0 {
        lemma_ordered_below_nothing((bound - 1) as nat);
    }
}

/// The running order holds as many commands as the set.
pub proof fn lemma_running_order_len(commands: Seq<OrderedCommandView>)
    ensures
        running_order(commands).len() == commands.len(),
    decreases commands.len(),
{
    if commands.len() == 0 {
        lemma_ordered_below_nothing(256);
        assert(commands =~= Seq::<OrderedCommandView>::empty());
    } else {
        lemma_running_order_len(commands.drop_last());
        lemma_ordered_below_len(commands, 256);
    }
}

/// A set that is in ascending order already runs as it stands.
pub proof fn lemma_running_order_of_ascending(commands: Seq<OrderedCommandView>)
    requires
        forall|i: int, j: int|
            0 <= i < j < commands.len() ==> #[trigger] commands[i].id
                <= #[trigger] commands[j].id,
    ensures
        running_order(commands) == commands,
{
    lemma_ascending_prefix(commands, 256);
    assert(commands.filter(|c: OrderedCommandView| c.id < 256) =~= commands) by {
        lemma_filter_all(commands);
    }
}

proof fn lemma_filter_all(commands: Seq<OrderedCommandView>)
    ensures
        commands.filter(|c: OrderedCommandView| c.id < 256) == commands,
    decreases commands.len(),
{
    reveal(Seq::filter);
    if commands.len() > 0 {
        lemma_filter_all(commands.drop_last());
        assert(commands.drop_last().push(commands.last()) =~= commands);
    }
}

proof fn lemma_ascending_prefix(commands: Seq<OrderedCommandView>, bound: nat)
    requires
        bound <= 256,
        forall|i: int, j: int|
            0 <= i < j < commands.len() ==> #[trigger] commands[i].id
                <= #[trigger] commands[j].id,
    ensures
        ordered_below(commands, bound) == commands.filter(|c: OrderedCommandView| c.id < bound),
    decreases bound,
{
    reveal(Seq::filter);
    if bound == 0 {
        lemma_filter_none(commands);
    } else {
        lemma_ascending_prefix(commands, (bound - 1) as nat);
        lemma_ascending_bucket(commands, bound);
    }
}

proof fn lemma_filter_none(commands: Seq<OrderedCommandView>)
    ensures
        commands.filter(|c: OrderedCommandView| c.id < 0nat) == Seq::<OrderedCommandView>::empty(),
    decreases commands.len(),
{
    reveal(Seq::filter);
    if commands.len() > 0 {
        lemma_filter_none(commands.drop_last());
    }
}

proof fn lemma_ascending_bucket(commands: Seq<OrderedCommandView>, bound: nat)
    requires
        0 < bound <= 256,
        forall|i: int, j: int|
            0 <= i < j < commands.len() ==> #[trigger] commands[i].id
                <= #[trigger] commands[j].id,
    ensures
        commands.filter(|c: OrderedCommandView| c.id < bound) == commands.filter(
            |c: OrderedCommandView| c.id < (bound - 1) as nat,
        ) + with_id(commands, (bound - 1) as u8),
    decreases commands.len(),
{
    reveal(Seq::filter);
    let low = |c: OrderedCommandView| c.id < (bound - 1) as nat;
    let upto = |c: OrderedCommandView| c.id < bound;
    let id = (bound - 1) as u8;
    if commands.len() == 0 {
        assert(commands.filter(upto) =~= commands.filter(low) + with_id(commands, id));
    } else {
        let front = commands.drop_last();
        let last = commands.last();
        assert forall|i: int, j: int| 0 <= i < j < front.len() implies #[trigger] front[i].id
            <= #[trigger] front[j].id by {
            assert(front[i] == commands[i] && front[j] == commands[j]);
        }
        lemma_ascending_bucket(front, bound);
        if last.id < bound - 1 {
            // every command of the front lies below the bound as well
            lemma_with_id_carries_id(front, id);
            lemma_occurs_twice(front, id);
            if with_id(front, id).len() > 0 {
                let i = choose|i: int| 0 <= i < front.len() && #[trigger] front[i].id == id;
                assert(commands[i].id <= commands[commands.len() - 1].id);
            }
            assert(with_id(front, id) =~= Seq::<OrderedCommandView>::empty());
            assert(commands.filter(upto) =~= commands.filter(low) + with_id(commands, id));
        } else {
            assert(commands.filter(upto) =~= commands.filter(low) + with_id(commands, id));
        }
    }
}

} // verus!
