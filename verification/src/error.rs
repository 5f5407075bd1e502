//! The errors an operation can end with, and the text shown for each.

use vstd::prelude::*;
use vstd::string::StringExecFns;
use crate::text::{decimal, decimal_text, signed_decimal, signed_decimal_text};

verus! {

/// Why an operation could not be resolved or did not complete.
#[derive(Debug, PartialEq, Eq)]
pub enum Error {
    /// The resolved command name is empty.
    EmptyCommand,
    /// The host has no known package manager.
    NoPackageManager,
    /// An install was requested but nothing is listed for it.
    NoPackagesConfigured,
    /// Some ordering ids of a command set occur more than once; they are
    /// listed in ascending order, each once.
    DuplicateOrderingId(Vec<u8>),
    /// The request for elevated privileges was refused.
    AuthenticationFailed,
    /// The spawned process ended with a status other than zero.
    CommandFailed { exit_code: i32 },
    /// The process could not be started.
    SpawnFailed,
    /// The download directory could not be resolved or created.
    DirectoryCreationFailed,
    /// A transfer could not be fetched from its source.
    DownloadFailed { source: String },
    /// A transfer could not be written to its target.
    WriteFailed { target: String },
    /// The configuration could not be loaded.
    ConfigurationError(String),
}

/// The mathematical content of an [`Error`].
pub enum ErrorView {
    EmptyCommand,
    NoPackageManager,
    NoPackagesConfigured,
    DuplicateOrderingId(Seq<u8>),
    AuthenticationFailed,
    CommandFailed { exit_code: int },
    SpawnFailed,
    DirectoryCreationFailed,
    DownloadFailed { source: Seq<char> },
    WriteFailed { target: Seq<char> },
    ConfigurationError(Seq<char>),
}

impl View for Error {
    type V = ErrorView;

    open spec fn view(&self) -> ErrorView {
        match *self {
            Error::EmptyCommand => ErrorView::EmptyCommand,
            Error::NoPackageManager => ErrorView::NoPackageManager,
            Error::NoPackagesConfigured => ErrorView::NoPackagesConfigured,
            Error::DuplicateOrderingId(ids) => ErrorView::DuplicateOrderingId(ids@),
            Error::AuthenticationFailed => ErrorView::AuthenticationFailed,
            Error::CommandFailed { exit_code } => ErrorView::CommandFailed {
                exit_code: exit_code as int,
            },
            Error::SpawnFailed => ErrorView::SpawnFailed,
            Error::DirectoryCreationFailed => ErrorView::DirectoryCreationFailed,
            Error::DownloadFailed { source } => ErrorView::DownloadFailed { source: source@ },
            Error::WriteFailed { target } => ErrorView::WriteFailed { target: target@ },
            Error::ConfigurationError(text) => ErrorView::ConfigurationError(text@),
        }
    }
}

/// The content of an outcome: of something that yields nothing but may
/// fail.
pub open spec fn outcome_view(r: Result<(), Error>) -> Result<(), ErrorView> {
    match r {
        Ok(()) => Ok(()),
        Err(e) => Err(e@),
    }
}

/// The ids written in base ten, separated by single spaces.
pub open spec fn joined_ids(ids: Seq<u8>) -> Seq<char>
    decreases ids.len(),
{
    if ids.len() == 0 {
        Seq::empty()
    } else if ids.len() == 1 {
        decimal(ids[0] as nat)
    } else {
        joined_ids(ids.drop_last()) + seq![' '] + decimal(ids.last() as nat)
    }
}

/// The text shown for an error.
pub open spec fn message_text(e: ErrorView) -> Seq<char> {
    match e {
        ErrorView::EmptyCommand => "Cannot process a zero-length shell command"@,
        ErrorView::NoPackageManager => "Spinup does not have a package manager configuration for this platform"@,
        ErrorView::NoPackagesConfigured => "Packages present in config, but no packages were listed"@,
        ErrorView::DuplicateOrderingId(ids) => "The following id values are not unique: "@
            + joined_ids(ids),
        ErrorView::AuthenticationFailed => "Unable to authenticate for sudo"@,
        ErrorView::CommandFailed { exit_code } => "Command returned status of '"@ + signed_decimal(
            exit_code,
        ) + "'.\nRun with higher verbosity to see more output"@,
        ErrorView::SpawnFailed => "Unable to start the command"@,
        ErrorView::DirectoryCreationFailed => "Unable to resolve or create the target directory"@,
        ErrorView::DownloadFailed { source } => "Unable to download "@ + source,
        ErrorView::WriteFailed { target } => "Unable to write "@ + target,
        ErrorView::ConfigurationError(text) => text,
    }
}

fn join_ids(ids: &Vec<u8>) -> (r: String)
    ensures
        r@ == joined_ids(ids@),
{
    let mut r = String::new();
    let mut i: usize = 0;
    while i < ids.len()
        invariant
            i <= ids.len(),
            r@ == joined_ids(ids@.take(i as int)),
        decreases ids.len() - i,
    {
        let digits = decimal_text(ids[i] as u64);
        proof {
            reveal_strlit(" ");
            let before = ids@.take(i as int);
            let after = ids@.take(i + 1);
            assert(after.drop_last() =~= before);
            assert(after.last() == ids@[i as int]);
            if i == 0 {
                assert(before.len() == 0);
                assert(joined_ids(before) =~= Seq::<char>::empty());
            }
        }
        if i > 0 {
            r.append(" ");
        }
        r.append(digits.as_str());
        i = i + 1;
        assert(r@ =~= joined_ids(ids@.take(i as int)));
    }
    assert(ids@.take(ids.len() as int) =~= ids@);
    r
}

impl Error {
    /// The text shown to the operator for this error.
    pub fn message(&self) -> (r: String)
        ensures
            r@ == message_text(self@),
    {
        match self {
            Error::EmptyCommand => String::from_str("Cannot process a zero-length shell command"),
            Error::NoPackageManager => String::from_str(
                "Spinup does not have a package manager configuration for this platform",
            ),
            Error::NoPackagesConfigured => String::from_str(
                "Packages present in config, but no packages were listed",
            ),
            Error::DuplicateOrderingId(ids) => {
                let mut r = String::from_str("The following id values are not unique: ");
                let listed = join_ids(ids);
                r.append(listed.as_str());
                r
            },
            Error::AuthenticationFailed => String::from_str("Unable to authenticate for sudo"),
            Error::CommandFailed { exit_code } => {
                let mut r = String::from_str("Command returned status of '");
                let code = signed_decimal_text(*exit_code);
                r.append(code.as_str());
                r.append("'.\nRun with higher verbosity to see more output");
                r
            },
            Error::SpawnFailed => String::from_str("Unable to start the command"),
            Error::DirectoryCreationFailed => String::from_str(
                "Unable to resolve or create the target directory",
            ),
            Error::DownloadFailed { source } => {
                let mut r = String::from_str("Unable to download ");
                r.append(source.as_str());
                r
            },
            Error::WriteFailed { target } => {
                let mut r = String::from_str("Unable to write ");
                r.append(target.as_str());
                r
            },
            Error::ConfigurationError(text) => text.clone(),
        }
    }
}

impl Clone for Error {
    fn clone(&self) -> (r: Error)
        ensures
            r@ == self@,
    {
        match self {
            Error::EmptyCommand => Error::EmptyCommand,
            Error::NoPackageManager => Error::NoPackageManager,
            Error::NoPackagesConfigured => Error::NoPackagesConfigured,
            Error::DuplicateOrderingId(ids) => Error::DuplicateOrderingId(ids.clone()),
            Error::AuthenticationFailed => Error::AuthenticationFailed,
            Error::CommandFailed { exit_code } => Error::CommandFailed { exit_code: *exit_code },
            Error::SpawnFailed => Error::SpawnFailed,
            Error::DirectoryCreationFailed => Error::DirectoryCreationFailed,
            Error::DownloadFailed { source } => Error::DownloadFailed { source: source.clone() },
            Error::WriteFailed { target } => Error::WriteFailed { target: target.clone() },
            Error::ConfigurationError(text) => Error::ConfigurationError(text.clone()),
        }
    }
}

} // verus!
