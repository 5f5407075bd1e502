//! Files to download: where they come from, where they go, and the command
//! that runs once all of them have arrived.

use vstd::prelude::*;
use vstd::string::StringExecFns;
use vstd::string::StrSliceExecFns;
use crate::configuration::command::{CustomCommand, CustomCommandView};
use crate::text::{string_of, text_of};

verus! {

broadcast use vstd::string::group_string_axioms;

/// A file to download and the name to store it under.
#[derive(Debug, PartialEq, Eq)]
pub struct FileDownloadDefinition {
    /// The source of the file: a publicly accessible URL.
    pub source: String,
    /// The file name to download to, below the operation's base directory.
    pub target: String,
}

/// The mathematical content of a [`FileDownloadDefinition`].
pub struct FileDownloadDefinitionView {
    pub source: Seq<char>,
    pub target: Seq<char>,
}

impl View for FileDownloadDefinition {
    type V = FileDownloadDefinitionView;

    open spec fn view(&self) -> FileDownloadDefinitionView {
        FileDownloadDefinitionView { source: self.source@, target: self.target@ }
    }
}

impl DeepView for FileDownloadDefinition {
    type V = FileDownloadDefinitionView;

    open spec fn deep_view(&self) -> FileDownloadDefinitionView {
        self@
    }
}

/// A set of downloads into one directory, with the command to run after
/// them.
#[derive(Debug, PartialEq, Eq)]
pub struct FileDownloadOperation {
    /// The directory to download all files into.
    pub base_dir: Option<String>,
    /// A command to run after all downloads have completed.
    pub after_complete: Option<CustomCommand>,
    /// The files to download.
    pub files: Vec<FileDownloadDefinition>,
}

/// The mathematical content of a [`FileDownloadOperation`].
pub struct FileDownloadOperationView {
    pub base_dir: Option<Seq<char>>,
    pub after_complete: Option<CustomCommandView>,
    pub files: Seq<FileDownloadDefinitionView>,
}

impl View for FileDownloadOperation {
    type V = FileDownloadOperationView;

    open spec fn view(&self) -> FileDownloadOperationView {
        FileDownloadOperationView {
            base_dir: string_of(self.base_dir),
            after_complete: self.after_complete.deep_view(),
            files: self.files.deep_view(),
        }
    }
}

impl DeepView for FileDownloadOperation {
    type V = FileDownloadOperationView;

    open spec fn deep_view(&self) -> FileDownloadOperationView {
        self@
    }
}

/// Whether the first component of `path` is `~`, which stands for the
/// home directory.
pub open spec fn starts_at_home(path: Seq<char>) -> bool {
    &&& path.len() >= 1
    &&& path[0] == '~'
    &&& (path.len() == 1 || path[1] == '/')
}

/// `path` with a leading `~` replaced by the home directory. A path that
/// does not start with `~` stays as it is, and so does every path when no
/// home directory is known.
pub open spec fn expand_home(path: Seq<char>, home: Option<Seq<char>>) -> Seq<char> {
    match home {
        Some(dir) => if starts_at_home(path) {
            dir + path.skip(1)
        } else {
            path
        },
        None => path,
    }
}

/// The first of the three candidates that is there: the configured base
/// directory, the current directory, the home directory.
pub open spec fn chosen_base(
    base_dir: Option<Seq<char>>,
    current_dir: Option<Seq<char>>,
    home: Option<Seq<char>>,
) -> Option<Seq<char>> {
    if base_dir is Some {
        base_dir
    } else if current_dir is Some {
        current_dir
    } else {
        home
    }
}

/// The directory that an operation downloads into: the chosen candidate
/// with a leading `~` expanded, `None` when there is no candidate.
pub open spec fn target_base(
    base_dir: Option<Seq<char>>,
    current_dir: Option<Seq<char>>,
    home: Option<Seq<char>>,
) -> Option<Seq<char>> {
    match chosen_base(base_dir, current_dir, home) {
        Some(path) => Some(expand_home(path, home)),
        None => None,
    }
}

/// The path of `target` below the directory `base`.
pub open spec fn joined_path(base: Seq<char>, target: Seq<char>) -> Seq<char> {
    if base.len() == 0 {
        target
    } else if base.last() == '/' {
        base + target
    } else {
        base + seq!['/'] + target
    }
}

fn is_at_home(path: &str) -> (r: bool)
    ensures
        r == starts_at_home(path@),
{
    let n = path.unicode_len();
    if n == 0 {
        false
    } else if path.get_char(0) != '~' {
        false
    } else {
        n == 1 || path.get_char(1) == '/'
    }
}

fn with_home(path: &str, home: Option<&str>) -> (r: String)
    ensures
        r@ == expand_home(path@, text_of(home)),
{
    match home {
        Some(dir) => {
            if is_at_home(path) {
                let n = path.unicode_len();
                let rest = path.substring_char(1, n);
                let mut r = String::from_str(dir);
                r.append(rest);
                assert(path@.subrange(1, n as int) =~= path@.skip(1));
                r
            } else {
                String::from_str(path)
            }
        },
        None => String::from_str(path),
    }
}

/// Resolves the directory to download into from the configured base
/// directory, the current directory and the home directory, in that order
/// of preference, and expands a leading `~`.
pub fn resolve_target_base(
    base_dir: Option<&str>,
    current_dir: Option<&str>,
    home: Option<&str>,
) -> (r: Option<String>)
    ensures
        string_of(r) == target_base(text_of(base_dir), text_of(current_dir), text_of(home)),
{
    match base_dir {
        Some(path) => Some(with_home(path, home)),
        None => match current_dir {
            Some(path) => Some(with_home(path, home)),
            None => match home {
                Some(path) => Some(with_home(path, home)),
                None => None,
            },
        },
    }
}

/// Calls `dirs::home_dir`, which looks the home directory of the current
/// user up in the environment and the user database. What it finds
/// depends on the machine, so nothing is claimed of the result.
#[verifier::external_body]
fn home_dir() -> (r: Option<String>) {
    match dirs::home_dir() {
        Some(path) => Some(path.to_string_lossy().into_owned()),
        None => None,
    }
}

fn as_text(t: &Option<String>) -> (r: Option<&str>)
    ensures
        text_of(r) == string_of(*t),
{
    match t {
        Some(s) => Some(s.as_str()),
        None => None,
    }
}

impl FileDownloadOperation {
    /// The directory this operation downloads into, given the current
    /// directory of the process. The home directory is looked up on the
    /// machine: the result is the one that [`resolve_target_base`] gives for
    /// some home directory, and where neither candidate starts with `~` and
    /// one is there, the lookup plays no part.
    pub fn download_target_base(&self, current_dir: Option<&str>) -> (r: Option<String>)
        ensures
            exists|home: Option<Seq<char>>|
                string_of(r) == #[trigger] target_base(self@.base_dir, text_of(current_dir), home),
            chosen_base(self@.base_dir, text_of(current_dir), None) matches Some(path) ==> (
            !starts_at_home(path) ==> string_of(r) == Some(path)),
    {
        let home = home_dir();
        let r = resolve_target_base(as_text(&self.base_dir), current_dir, as_text(&home));
        assert(string_of(r) == target_base(self@.base_dir, text_of(current_dir), string_of(home)));
        r
    }
}

/// The path that a file is downloaded to: its target name below the base
/// directory.
pub fn download_target(definition: &FileDownloadDefinition, base_path: &str) -> (r: String)
    ensures
        r@ == joined_path(base_path@, definition@.target),
{
    let n = base_path.unicode_len();
    if n == 0 {
        definition.target.clone()
    } else {
        let mut r = String::from_str(base_path);
        if base_path.get_char(n - 1) != '/' {
            r.append("/");
            proof {
                reveal_strlit("/");
                assert("/"@ =~= seq!['/']);
            }
        }
        r.append(definition.target.as_str());
        r
    }
}

} // verus!
