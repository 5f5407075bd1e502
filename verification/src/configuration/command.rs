//! Shell commands that are run on their own or after other operations.

use vstd::prelude::*;
use crate::configuration::system::SystemDetails;
use crate::error::{Error, ErrorView};
use crate::operations::RunnableOperation;

verus! {

/// A shell command: a command name, its arguments, and whether it has to
/// run with elevated privileges.
#[derive(Debug, PartialEq, Eq)]
pub struct CustomCommand {
    /// The command to run.
    pub command: String,
    /// The arguments to pass to the command, if any.
    pub args: Option<Vec<String>>,
    /// Whether the command needs elevated privileges.
    pub needs_root: bool,
}

/// The mathematical content of a [`CustomCommand`].
pub struct CustomCommandView {
    pub command: Seq<char>,
    pub args: Option<Seq<Seq<char>>>,
    pub needs_root: bool,
}

impl View for CustomCommand {
    type V = CustomCommandView;

    open spec fn view(&self) -> CustomCommandView {
        CustomCommandView {
            command: self.command@,
            args: self.args.deep_view(),
            needs_root: self.needs_root,
        }
    }
}

impl DeepView for CustomCommand {
    type V = CustomCommandView;

    open spec fn deep_view(&self) -> CustomCommandView {
        self@
    }
}

impl Clone for CustomCommand {
    fn clone(&self) -> (r: CustomCommand)
        ensures
            r@ == self@,
    {
        CustomCommand {
            command: self.command.clone(),
            args: match &self.args {
                Some(args) => Some(args.clone()),
                None => None,
            },
            needs_root: self.needs_root,
        }
    }
}

impl CustomCommand {
    /// A command that runs `command` with `args`, elevated when
    /// `needs_root` is set.
    pub fn new(command: String, args: Option<Vec<String>>, needs_root: bool) -> (r: CustomCommand)
        ensures
            r.command == command,
            r.args == args,
            r.needs_root == needs_root,
    {
        CustomCommand { command, args, needs_root }
    }
}

impl RunnableOperation for CustomCommand {
    open spec fn spec_command_name(&self, system_details: SystemDetails) -> Result<
        Seq<char>,
        ErrorView,
    > {
        if self.command@.len() == 0 {
            Err(ErrorView::EmptyCommand)
        } else {
            Ok(self.command@)
        }
    }

    open spec fn spec_args(&self, system_details: SystemDetails) -> Option<Seq<Seq<char>>> {
        self.args.deep_view()
    }

    open spec fn spec_needs_root(&self) -> bool {
        self.needs_root
    }

    fn command_name(&self, system_details: SystemDetails) -> (r: Result<String, Error>) {
        if self.command.as_str().is_empty() {
            Err(Error::EmptyCommand)
        } else {
            Ok(self.command.clone())
        }
    }

    fn args(&self, system_details: SystemDetails) -> (r: Option<Vec<String>>) {
        match &self.args {
            Some(args) => Some(args.clone()),
            None => None,
        }
    }

    fn needs_root(&self) -> (r: bool) {
        self.needs_root
    }
}

} // verus!
