//! The download phase: where each file goes, what the outcomes of the
//! transfers add up to, and whether the command after them runs.
//!
//! The transfers of one operation run side by side and so do the
//! operations; their outcomes are gathered and judged together.

use vstd::prelude::*;
use crate::configuration::command::CustomCommandView;
use crate::configuration::files::{
    chosen_base,
    download_target,
    joined_path,
    starts_at_home,
    target_base,
    FileDownloadDefinitionView,
    FileDownloadOperation,
};
use crate::configuration::system::SystemDetails;
use crate::text::{string_of, text_of};
use crate::configuration::Configuration;
use crate::error::{outcome_view, Error, ErrorView};
use crate::operations::custom_commands::command_resolution;
use crate::operations::{run_command, Invocation, InvocationView};

verus! {

/// One file transfer: fetch `source`, write it to `destination`.
#[derive(Debug, PartialEq, Eq)]
pub struct Transfer {
    /// The URL to fetch.
    pub source: String,
    /// The path to write the body to.
    pub destination: String,
}

/// The mathematical content of a [`Transfer`].
pub struct TransferView {
    pub source: Seq<char>,
    pub destination: Seq<char>,
}

impl View for Transfer {
    type V = TransferView;

    open spec fn view(&self) -> TransferView {
        TransferView { source: self.source@, destination: self.destination@ }
    }
}

impl DeepView for Transfer {
    type V = TransferView;

    open spec fn deep_view(&self) -> TransferView {
        self@
    }
}

/// The transfers of an operation that downloads into `base`: one for each
/// file, in order, to the file's target below `base`.
pub open spec fn transfers_of(files: Seq<FileDownloadDefinitionView>, base: Seq<char>) -> Seq<
    TransferView,
> {
    Seq::new(
        files.len(),
        |i: int| TransferView {
            source: files[i].source,
            destination: joined_path(base, files[i].target),
        },
    )
}

/// Lists the transfers of an operation that downloads into `base`.
pub fn plan_transfers(operation: &FileDownloadOperation, base: &str) -> (r: Vec<Transfer>)
    ensures
        r.deep_view() == transfers_of(operation@.files, base@),
{
    let mut transfers: Vec<Transfer> = Vec::new();
    let ghost all = transfers_of(operation@.files, base@);
    let mut i: usize = 0;
    assert(transfers.deep_view() =~= all.take(0));
    while i < operation.files.len()
        invariant
            i <= operation.files.len(),
            all == transfers_of(operation@.files, base@),
            transfers.deep_view() == all.take(i as int),
        decreases operation.files.len() - i,
    {
        let definition = &operation.files[i];
        let ghost before = transfers.deep_view();
        let transfer = Transfer {
            source: definition.source.clone(),
            destination: download_target(definition, base),
        };
        assert(transfer@ == all[i as int]);
        transfers.push(transfer);
        assert(transfers.deep_view() =~= before.push(all[i as int]));
        i = i + 1;
        assert(transfers.deep_view() =~= all.take(i as int));
    }
    assert(all.take(operation.files.len() as int) =~= all);
    transfers
}

/// What is to be done for a download operation: the directory to create
/// and the transfers into it.
#[derive(Debug, PartialEq, Eq)]
pub struct DownloadPlan {
    /// The directory that has to exist before any transfer starts.
    pub directory: String,
    /// The transfers, in the order of the operation's files.
    pub transfers: Vec<Transfer>,
}

/// The mathematical content of a [`DownloadPlan`].
pub struct DownloadPlanView {
    pub directory: Seq<char>,
    pub transfers: Seq<TransferView>,
}

impl View for DownloadPlan {
    type V = DownloadPlanView;

    open spec fn view(&self) -> DownloadPlanView {
        DownloadPlanView { directory: self.directory@, transfers: self.transfers.deep_view() }
    }
}

/// The content of a planned download.
pub open spec fn planned_view(r: Result<DownloadPlan, Error>) -> Result<
    DownloadPlanView,
    ErrorView,
> {
    match r {
        Ok(plan) => Ok(plan@),
        Err(e) => Err(e@),
    }
}

/// The plan of an operation whose base directory resolved to `base`.
/// Without a directory to download into the operation fails before
/// anything is fetched.
pub open spec fn download_plan(files: Seq<FileDownloadDefinitionView>, base: Option<Seq<char>>)
    -> Result<DownloadPlanView, ErrorView> {
    match base {
        Some(directory) => Ok(
            DownloadPlanView { directory, transfers: transfers_of(files, directory) },
        ),
        None => Err(ErrorView::DirectoryCreationFailed),
    }
}

/// Plans the downloads of an operation into the directory that its base
/// resolved to.
pub fn plan_download(operation: &FileDownloadOperation, base: Option<String>) -> (r: Result<
    DownloadPlan,
    Error,
>)
    ensures
        planned_view(r) == download_plan(operation@.files, string_of(base)),
{
    match base {
        Some(directory) => {
            let transfers = plan_transfers(operation, directory.as_str());
            Ok(DownloadPlan { directory, transfers })
        },
        None => Err(Error::DirectoryCreationFailed),
    }
}

/// Plans the downloads of an operation, given the current directory of
/// the process. The base directory is resolved on the machine, as
/// [`FileDownloadOperation::download_target_base`] does it.
pub fn prepare_download(operation: &FileDownloadOperation, current_dir: Option<&str>) -> (r: Result<
    DownloadPlan,
    Error,
>)
    ensures
        exists|home: Option<Seq<char>>|
            planned_view(r) == download_plan(
                operation@.files,
                #[trigger] target_base(operation@.base_dir, text_of(current_dir), home),
            ),
        chosen_base(operation@.base_dir, text_of(current_dir), None) matches Some(path) ==> (
        !starts_at_home(path) ==> planned_view(r) == download_plan(
            operation@.files,
            Some(path),
        )),
{
    let base = operation.download_target_base(current_dir);
    plan_download(operation, base)
}

/// What became of a transfer: a body that could not be fetched is a
/// failed download of the source, a body that could not be written is a
/// failed write of the destination.
pub open spec fn transfer_result(transfer: TransferView, fetched: bool, written: bool) -> Result<
    (),
    ErrorView,
> {
    if !fetched {
        Err(ErrorView::DownloadFailed { source: transfer.source })
    } else if !written {
        Err(ErrorView::WriteFailed { target: transfer.destination })
    } else {
        Ok(())
    }
}

/// Judges one transfer from whether its body was fetched and whether it
/// was written.
pub fn transfer_outcome(transfer: &Transfer, fetched: bool, written: bool) -> (r: Result<
    (),
    Error,
>)
    ensures
        outcome_view(r) == transfer_result(transfer@, fetched, written),
{
    if !fetched {
        Err(Error::DownloadFailed { source: transfer.source.clone() })
    } else if !written {
        Err(Error::WriteFailed { target: transfer.destination.clone() })
    } else {
        Ok(())
    }
}

/// The content of a list of outcomes.
pub open spec fn outcomes_view(outcomes: Seq<Result<(), Error>>) -> Seq<Result<(), ErrorView>> {
    Seq::new(outcomes.len(), |i: int| outcome_view(outcomes[i]))
}

/// Every outcome is a success.
pub open spec fn all_succeeded(outcomes: Seq<Result<(), ErrorView>>) -> bool {
    forall|i: int| 0 <= i < outcomes.len() ==> (#[trigger] outcomes[i]) is Ok
}

/// The outcome at `k` is the first failure.
pub open spec fn is_first_failure(outcomes: Seq<Result<(), ErrorView>>, k: int) -> bool {
    &&& 0 <= k < outcomes.len()
    &&& outcomes[k] is Err
    &&& forall|j: int| 0 <= j < k ==> (#[trigger] outcomes[j]) is Ok
}

/// What a list of outcomes adds up to: success when every one is a
/// success, else the first failure in the order of the list.
pub open spec fn together(
    outcomes: Seq<Result<(), ErrorView>>,
    total: Result<(), ErrorView>,
) -> bool {
    match total {
        Ok(()) => all_succeeded(outcomes),
        Err(e) => exists|k: int| #[trigger] is_first_failure(outcomes, k) && outcomes[k] == total,
    }
}

/// What a list of outcomes adds up to is determined: it is a success
/// exactly when every outcome is one, and otherwise one failure and no
/// other.
pub proof fn lemma_together_is_determined(
    outcomes: Seq<Result<(), ErrorView>>,
    total: Result<(), ErrorView>,
    other: Result<(), ErrorView>,
)
    requires
        together(outcomes, total),
        together(outcomes, other),
    ensures
        total == other,
        total is Ok <==> all_succeeded(outcomes),
{
    if total is Err {
        let k = choose|k: int| #[trigger] is_first_failure(outcomes, k) && outcomes[k] == total;
        assert(outcomes[k] is Err);
        if other is Err {
            let m = choose|m: int| #[trigger] is_first_failure(outcomes, m) && outcomes[m] == other;
            if k < m {
                assert(outcomes[k] is Ok);
            }
            if m < k {
                assert(outcomes[m] is Ok);
            }
        } else {
            assert(outcomes[k] is Ok);
        }
    } else if other is Err {
        let m = choose|m: int| #[trigger] is_first_failure(outcomes, m) && outcomes[m] == other;
        assert(outcomes[m] is Ok);
    } else {
        assert(total->Ok_0 == other->Ok_0);
    }
}

/// One failed transfer keeps the command after the downloads from running:
/// whatever a download operation is concluded to, it is a failure as soon
/// as one outcome is.
pub proof fn lemma_one_failure_fails_all(outcomes: Seq<Result<(), ErrorView>>, k: int)
    requires
        0 <= k < outcomes.len(),
        outcomes[k] is Err,
    ensures
        !all_succeeded(outcomes),
        forall|total: Result<(), ErrorView>| together(outcomes, total) ==> total is Err,
{
}

/// Judges the outcomes of work that ran side by side: all of it is
/// gathered, and it fails together with the first failure in the order of
/// the list.
pub fn collect_results(outcomes: &Vec<Result<(), Error>>) -> (r: Result<(), Error>)
    ensures
        together(outcomes_view(outcomes@), outcome_view(r)),
{
    let ghost views = outcomes_view(outcomes@);
    let mut i: usize = 0;
    while i < outcomes.len()
        invariant
            i <= outcomes.len(),
            views == outcomes_view(outcomes@),
            forall|j: int| 0 <= j < i ==> (#[trigger] views[j]) is Ok,
        decreases outcomes.len() - i,
    {
        match &outcomes[i] {
            Ok(()) => {},
            Err(e) => {
                let failure = e.clone();
                assert(is_first_failure(views, i as int));
                assert(views[i as int] == Err::<(), ErrorView>(failure@));
                return Err(failure);
            },
        }
        i = i + 1;
    }
    Ok(())
}

/// The content of what is to run after a download operation.
pub open spec fn follow_up_view(r: Result<Option<Invocation>, Error>) -> Result<
    Option<InvocationView>,
    ErrorView,
> {
    match r {
        Ok(Some(invocation)) => Ok(Some(invocation@)),
        Ok(None) => Ok(None),
        Err(e) => Err(e@),
    }
}

/// What follows the transfers of an operation whose transfers have all
/// succeeded: the command to run after them, if one is configured.
pub open spec fn follow_up(after_complete: Option<CustomCommandView>) -> Result<
    Option<InvocationView>,
    ErrorView,
> {
    match after_complete {
        Some(command) => match command_resolution(command) {
            Ok(invocation) => Ok(Some(invocation)),
            Err(e) => Err(e),
        },
        None => Ok(None),
    }
}

/// Concludes a download operation from the outcomes of its transfers,
/// given in the order of its files. Only when every transfer has succeeded
/// is the command after them handed out, and then once; a failed transfer
/// fails the operation, and the command is skipped.
pub fn execute_download_operation(
    operation: &FileDownloadOperation,
    system_details: SystemDetails,
    outcomes: &Vec<Result<(), Error>>,
) -> (r: Result<Option<Invocation>, Error>)
    requires
        outcomes.len() == operation.files.len(),
    ensures
        all_succeeded(outcomes_view(outcomes@)) ==> follow_up_view(r) == follow_up(
            operation@.after_complete,
        ),
        !all_succeeded(outcomes_view(outcomes@)) ==> r is Err && together(
            outcomes_view(outcomes@),
            Err(r->Err_0@),
        ),
{
    match collect_results(outcomes) {
        Ok(()) => {},
        Err(e) => {
            return Err(e);
        },
    }
    match &operation.after_complete {
        Some(after) => match run_command(after, system_details) {
            Ok(invocation) => Ok(Some(invocation)),
            Err(e) => Err(e),
        },
        None => Ok(None),
    }
}

/// How many download operations a configuration holds.
pub open spec fn download_count(config: &Configuration) -> nat {
    match config.file_downloads {
        Some(operations) => operations.len() as nat,
        None => 0,
    }
}

/// Concludes the download phase from the outcomes of its operations,
/// given in the order of the configuration. A configuration without
/// downloads succeeds with no work done.
pub fn execute_download_operations(
    config: &Configuration,
    outcomes: &Vec<Result<(), Error>>,
) -> (r: Result<(), Error>)
    requires
        outcomes.len() == download_count(config),
    ensures
        together(outcomes_view(outcomes@), outcome_view(r)),
        download_count(config) == 0 ==> r is Ok,
{
    collect_results(outcomes)
}

} // verus!
