//! The host operating system: how it is recognised from its release
//! identifiers, and the shape of its package manager's commands.

use vstd::prelude::*;
use vstd::string::StringExecFns;
use vstd::string::StrSliceExecFns;
use crate::error::{Error, ErrorView};
use crate::operations::RunnableOperation;
use crate::text::{char_is_whitespace, is_whitespace, string_of, text_eq, text_of, to_chars};

verus! {

broadcast use vstd::string::group_string_axioms;

/// An identified operating system.
#[derive(Debug, PartialEq, Eq, Clone, Copy, Structural)]
pub enum TargetOperatingSystem {
    Arch,
    Debian,
    Ubuntu,
    Mint,
    Fedora,
    RedHat,
    Unknown,
}

/// The operating system that a release identifier names, `Unknown` for a
/// name that is not in the table.
pub open spec fn os_for_name(name: Seq<char>) -> TargetOperatingSystem {
    if name == "arch"@ || name == "archlinux"@ || name == "manjaro"@ {
        TargetOperatingSystem::Arch
    } else if name == "debian"@ {
        TargetOperatingSystem::Debian
    } else if name == "ubuntu"@ {
        TargetOperatingSystem::Ubuntu
    } else if name == "linuxmint"@ || name == "mint"@ {
        TargetOperatingSystem::Mint
    } else if name == "fedora"@ || name == "centos"@ {
        TargetOperatingSystem::Fedora
    } else if name == "rhel"@ {
        TargetOperatingSystem::RedHat
    } else {
        TargetOperatingSystem::Unknown
    }
}

impl From<&str> for TargetOperatingSystem {
    /// The operating system that the release identifier `name` names.
    fn from(name: &str) -> (r: TargetOperatingSystem) {
        if text_eq(name, "arch") || text_eq(name, "archlinux") || text_eq(name, "manjaro") {
            TargetOperatingSystem::Arch
        } else if text_eq(name, "debian") {
            TargetOperatingSystem::Debian
        } else if text_eq(name, "ubuntu") {
            TargetOperatingSystem::Ubuntu
        } else if text_eq(name, "linuxmint") || text_eq(name, "mint") {
            TargetOperatingSystem::Mint
        } else if text_eq(name, "fedora") || text_eq(name, "centos") {
            TargetOperatingSystem::Fedora
        } else if text_eq(name, "rhel") {
            TargetOperatingSystem::RedHat
        } else {
            TargetOperatingSystem::Unknown
        }
    }
}

impl vstd::std_specs::convert::FromSpecImpl<&str> for TargetOperatingSystem {
    open spec fn obeys_from_spec() -> bool {
        true
    }

    open spec fn from_spec(name: &str) -> TargetOperatingSystem {
        os_for_name(name@)
    }
}

/// The number of characters before the first white-space character of
/// `s`.
pub open spec fn word_len(s: Seq<char>) -> nat
    decreases s.len(),
{
    if s.len() == 0 || is_whitespace(s[0]) {
        0
    } else {
        1 + word_len(s.skip(1))
    }
}

#[via_fn]
proof fn words_decreases(s: Seq<char>) {
    lemma_word_prefix(s);
}

/// The words of `s`: its maximal runs of characters that are not white
/// space, in order.
pub open spec fn words(s: Seq<char>) -> Seq<Seq<char>>
    decreases s.len(),
    via words_decreases
{
    if s.len() == 0 {
        Seq::empty()
    } else if is_whitespace(s[0]) {
        words(s.skip(1))
    } else {
        seq![s.take(word_len(s) as int)] + words(s.skip(word_len(s) as int))
    }
}

/// The operating system named by the first of `names` that is in the
/// table, `Unknown` when none is.
pub open spec fn first_known(names: Seq<Seq<char>>) -> TargetOperatingSystem
    decreases names.len(),
{
    if names.len() == 0 {
        TargetOperatingSystem::Unknown
    } else if os_for_name(names[0]) != TargetOperatingSystem::Unknown {
        os_for_name(names[0])
    } else {
        first_known(names.skip(1))
    }
}

/// The operating system that a pair of release identifiers resolves to:
/// what `os_id` names, else what the first recognised word of `os_id_like`
/// names, else `Unknown`.
pub open spec fn resolve_spec(
    os_id: Option<Seq<char>>,
    os_id_like: Option<Seq<char>>,
) -> TargetOperatingSystem {
    let direct = match os_id {
        Some(id) => os_for_name(id),
        None => TargetOperatingSystem::Unknown,
    };
    if direct != TargetOperatingSystem::Unknown {
        direct
    } else {
        match os_id_like {
            Some(like) => first_known(words(like)),
            None => TargetOperatingSystem::Unknown,
        }
    }
}

/// Whether `os_id` names no system.
pub open spec fn unresolved(os_id: Option<Seq<char>>) -> bool {
    match os_id {
        Some(id) => os_for_name(id) == TargetOperatingSystem::Unknown,
        None => true,
    }
}

/// The operating system named by the first recognised word of `like`.
fn resolve_like(like: &str) -> (r: TargetOperatingSystem)
    ensures
        r == first_known(words(like@)),
{
    let chars = to_chars(like);
    let n = chars.len();
    let mut i: usize = 0;
    assert(like@.skip(0) =~= like@);
    while i < n
        invariant
            chars@ == like@,
            n == chars.len(),
            i <= n,
            first_known(words(like@)) == first_known(words(like@.skip(i as int))),
        decreases n - i,
    {
        let ghost rest = like@.skip(i as int);
        if char_is_whitespace(chars[i]) {
            assert(rest.skip(1) =~= like@.skip(i + 1));
            i = i + 1;
        } else {
            let mut k: usize = i;
            while k < n && !char_is_whitespace(chars[k])
                invariant
                    chars@ == like@,
                    n == chars.len(),
                    i <= k <= n,
                    word_len(like@.skip(i as int)) == (k - i) + word_len(like@.skip(k as int)),
                decreases n - k,
            {
                assert(like@.skip(k as int).skip(1) =~= like@.skip(k + 1));
                k = k + 1;
            }
            assert(i < k);
            let token = like.substring_char(i, k);
            let found = TargetOperatingSystem::from(token);
            proof {
                assert(word_len(like@.skip(k as int)) == 0);
                assert(word_len(rest) == k - i);
                assert(rest.take(k - i) =~= like@.subrange(i as int, k as int));
                assert(rest.skip(k - i) =~= like@.skip(k as int));
                let tail = words(like@.skip(k as int));
                assert(words(rest) == seq![token@] + tail);
                assert((seq![token@] + tail).skip(1) =~= tail);
                assert((seq![token@] + tail)[0] == token@);
            }
            if found != TargetOperatingSystem::Unknown {
                return found;
            }
            i = k;
        }
    }
    assert(like@.skip(n as int).len() == 0);
    TargetOperatingSystem::Unknown
}

/// Classifies the host from its release identifiers. `os_id` is tried
/// first; when it is absent or not recognised, the words of `os_id_like`
/// are tried in order.
pub fn resolve(os_id: Option<&str>, os_id_like: Option<&str>) -> (r: TargetOperatingSystem)
    ensures
        r == resolve_spec(text_of(os_id), text_of(os_id_like)),
{
    let direct = match os_id {
        Some(id) => TargetOperatingSystem::from(id),
        None => TargetOperatingSystem::Unknown,
    };
    if direct != TargetOperatingSystem::Unknown {
        direct
    } else {
        match os_id_like {
            Some(like) => resolve_like(like),
            None => TargetOperatingSystem::Unknown,
        }
    }
}

/// The commands required to interact with the package manager of a host.
/// A field that is empty stands for "absent"; an empty `name` means that
/// the host has no package manager that can be run.
#[derive(Debug, PartialEq, Eq)]
pub struct PackageManager {
    name: String,
    install_subcommand: String,
    update_subcommand: String,
    upgrade_subcommand: String,
    autoconfirm: String,
}

/// The mathematical content of a [`PackageManager`].
pub struct PackageManagerView {
    /// The binary, such as `apt-get` or `pacman`.
    pub name: Seq<char>,
    /// The subcommand that installs packages.
    pub install_subcommand: Seq<char>,
    /// The subcommand that refreshes the package lists.
    pub update_subcommand: Seq<char>,
    /// The subcommand that upgrades the installed packages.
    pub upgrade_subcommand: Seq<char>,
    /// The argument that bypasses confirmation requests.
    pub autoconfirm: Seq<char>,
}

impl View for PackageManager {
    type V = PackageManagerView;

    closed spec fn view(&self) -> PackageManagerView {
        PackageManagerView {
            name: self.name@,
            install_subcommand: self.install_subcommand@,
            update_subcommand: self.update_subcommand@,
            upgrade_subcommand: self.upgrade_subcommand@,
            autoconfirm: self.autoconfirm@,
        }
    }
}

impl Clone for PackageManager {
    fn clone(&self) -> (r: PackageManager)
        ensures
            r@ == self@,
    {
        PackageManager {
            name: self.name.clone(),
            install_subcommand: self.install_subcommand.clone(),
            update_subcommand: self.update_subcommand.clone(),
            upgrade_subcommand: self.upgrade_subcommand.clone(),
            autoconfirm: self.autoconfirm.clone(),
        }
    }
}

/// The package manager of each operating system. `Unknown` has none: all
/// of its fields are empty.
pub open spec fn package_manager_view(target_os: TargetOperatingSystem) -> PackageManagerView {
    match target_os {
        TargetOperatingSystem::Arch => PackageManagerView {
            name: "pacman"@,
            install_subcommand: "-S"@,
            update_subcommand: "-Sy"@,
            upgrade_subcommand: "-Syu"@,
            autoconfirm: "--noconfirm"@,
        },
        TargetOperatingSystem::Debian
        | TargetOperatingSystem::Ubuntu
        | TargetOperatingSystem::Mint => PackageManagerView {
            name: "apt-get"@,
            install_subcommand: "install"@,
            update_subcommand: "update"@,
            upgrade_subcommand: "upgrade"@,
            autoconfirm: "-y"@,
        },
        TargetOperatingSystem::Fedora => PackageManagerView {
            name: "dnf"@,
            install_subcommand: "install"@,
            update_subcommand: "upgrade"@,
            upgrade_subcommand: "upgrade"@,
            autoconfirm: "--assumeyes"@,
        },
        TargetOperatingSystem::RedHat => PackageManagerView {
            name: "yum"@,
            install_subcommand: "install"@,
            update_subcommand: "upgrade"@,
            upgrade_subcommand: "upgrade"@,
            autoconfirm: "--assumeyes"@,
        },
        TargetOperatingSystem::Unknown => PackageManagerView {
            name: Seq::empty(),
            install_subcommand: Seq::empty(),
            update_subcommand: Seq::empty(),
            upgrade_subcommand: Seq::empty(),
            autoconfirm: Seq::empty(),
        },
    }
}

/// `None` for an empty text, the text itself otherwise.
pub open spec fn present(text: Seq<char>) -> Option<Seq<char>> {
    if text.len() == 0 {
        None
    } else {
        Some(text)
    }
}

fn non_empty(text: &String) -> (r: Option<String>)
    ensures
        string_of(r) == present(text@),
{
    if text.as_str().is_empty() {
        None
    } else {
        Some(text.clone())
    }
}

impl PackageManager {
    /// A package manager with the given command shape.
    pub fn new(
        name: &str,
        install_subcommand: &str,
        update_subcommand: &str,
        upgrade_subcommand: &str,
        autoconfirm: &str,
    ) -> (r: PackageManager)
        ensures
            r@ == (PackageManagerView {
                name: name@,
                install_subcommand: install_subcommand@,
                update_subcommand: update_subcommand@,
                upgrade_subcommand: upgrade_subcommand@,
                autoconfirm: autoconfirm@,
            }),
    {
        PackageManager {
            name: name.to_owned(),
            install_subcommand: install_subcommand.to_owned(),
            update_subcommand: update_subcommand.to_owned(),
            upgrade_subcommand: upgrade_subcommand.to_owned(),
            autoconfirm: autoconfirm.to_owned(),
        }
    }

    /// The operation that refreshes the package lists, or `None` where the
    /// update and upgrade subcommands are the same text: the upgrade
    /// operation then does both.
    pub fn update_operation(&self) -> (r: Option<SystemRefreshOperation>)
        ensures
            self@.update_subcommand == self@.upgrade_subcommand ==> r is None,
            self@.update_subcommand != self@.upgrade_subcommand ==> r is Some && r.unwrap()@ == (
            SystemRefreshOperationView {
                command_name: self@.name,
                target_subcommand: self@.update_subcommand,
                autoconfirm: self@.autoconfirm,
            }),
    {
        if self.update_subcommand == self.upgrade_subcommand {
            None
        } else {
            Some(
                SystemRefreshOperation::new(
                    self.name.as_str(),
                    self.update_subcommand.as_str(),
                    self.autoconfirm.as_str(),
                ),
            )
        }
    }

    /// The operation that upgrades the installed packages.
    pub fn upgrade_operation(&self) -> (r: SystemRefreshOperation)
        ensures
            r@ == (SystemRefreshOperationView {
                command_name: self@.name,
                target_subcommand: self@.upgrade_subcommand,
                autoconfirm: self@.autoconfirm,
            }),
    {
        SystemRefreshOperation::new(
            self.name.as_str(),
            self.upgrade_subcommand.as_str(),
            self.autoconfirm.as_str(),
        )
    }

    /// The name of the package manager's binary, `None` when there is none.
    pub fn name(&self) -> (r: Option<String>)
        ensures
            string_of(r) == present(self@.name),
    {
        non_empty(&self.name)
    }

    /// The subcommand that installs packages, `None` when there is none.
    pub fn install_subcommand(&self) -> (r: Option<String>)
        ensures
            string_of(r) == present(self@.install_subcommand),
    {
        non_empty(&self.install_subcommand)
    }

    /// The argument that bypasses confirmation requests, `None` when there
    /// is none.
    pub fn autoconfirm(&self) -> (r: Option<String>)
        ensures
            string_of(r) == present(self@.autoconfirm),
    {
        non_empty(&self.autoconfirm)
    }

    /// Whether this package manager can be run at all.
    pub fn can_run(&self) -> (r: bool)
        ensures
            r == (self@.name.len() > 0),
    {
        !self.name.as_str().is_empty()
    }
}

/// The package manager of the given operating system.
pub fn package_manager_for(target_os: TargetOperatingSystem) -> (r: PackageManager)
    ensures
        r@ == package_manager_view(target_os),
{
    match target_os {
        TargetOperatingSystem::Arch => PackageManager::new(
            "pacman",
            "-S",
            "-Sy",
            "-Syu",
            "--noconfirm",
        ),
        TargetOperatingSystem::Debian
        | TargetOperatingSystem::Ubuntu
        | TargetOperatingSystem::Mint => PackageManager::new(
            "apt-get",
            "install",
            "update",
            "upgrade",
            "-y",
        ),
        TargetOperatingSystem::Fedora => PackageManager::new(
            "dnf",
            "install",
            "upgrade",
            "upgrade",
            "--assumeyes",
        ),
        TargetOperatingSystem::RedHat => PackageManager::new(
            "yum",
            "install",
            "upgrade",
            "upgrade",
            "--assumeyes",
        ),
        TargetOperatingSystem::Unknown => {
            proof {
                reveal_strlit("");
                assert(""@ =~= Seq::<char>::empty());
            }
            PackageManager::new("", "", "", "", "")
        },
    }
}

impl From<TargetOperatingSystem> for PackageManager {
    /// The package manager of the given operating system.
    fn from(target_os: TargetOperatingSystem) -> (r: PackageManager)
        ensures
            r@ == package_manager_view(target_os),
    {
        package_manager_for(target_os)
    }
}

impl vstd::std_specs::convert::FromSpecImpl<TargetOperatingSystem> for PackageManager {
    open spec fn obeys_from_spec() -> bool {
        false
    }

    open spec fn from_spec(target_os: TargetOperatingSystem) -> PackageManager {
        arbitrary()
    }
}

/// A system update or upgrade, made from a package manager on the fly.
#[derive(Debug, PartialEq, Eq)]
pub struct SystemRefreshOperation {
    /// The command to run: the package manager's binary.
    pub command_name: String,
    /// The update or the upgrade subcommand.
    pub target_subcommand: String,
    /// The argument that bypasses confirmation requests.
    pub autoconfirm: String,
}

/// The mathematical content of a [`SystemRefreshOperation`].
pub struct SystemRefreshOperationView {
    pub command_name: Seq<char>,
    pub target_subcommand: Seq<char>,
    pub autoconfirm: Seq<char>,
}

impl View for SystemRefreshOperation {
    type V = SystemRefreshOperationView;

    open spec fn view(&self) -> SystemRefreshOperationView {
        SystemRefreshOperationView {
            command_name: self.command_name@,
            target_subcommand: self.target_subcommand@,
            autoconfirm: self.autoconfirm@,
        }
    }
}

impl Clone for SystemRefreshOperation {
    fn clone(&self) -> (r: SystemRefreshOperation)
        ensures
            r@ == self@,
    {
        SystemRefreshOperation {
            command_name: self.command_name.clone(),
            target_subcommand: self.target_subcommand.clone(),
            autoconfirm: self.autoconfirm.clone(),
        }
    }
}

impl SystemRefreshOperation {
    /// A refresh operation that runs `command_name target_subcommand autoconfirm`.
    pub fn new(command_name: &str, target_subcommand: &str, autoconfirm: &str) -> (r:
        SystemRefreshOperation)
        ensures
            r@ == (SystemRefreshOperationView {
                command_name: command_name@,
                target_subcommand: target_subcommand@,
                autoconfirm: autoconfirm@,
            }),
    {
        SystemRefreshOperation {
            command_name: command_name.to_owned(),
            target_subcommand: target_subcommand.to_owned(),
            autoconfirm: autoconfirm.to_owned(),
        }
    }
}

impl RunnableOperation for SystemRefreshOperation {
    open spec fn spec_command_name(&self, system_details: SystemDetails) -> Result<
        Seq<char>,
        ErrorView,
    > {
        if self.command_name@.len() == 0 {
            Err(ErrorView::EmptyCommand)
        } else {
            Ok(self.command_name@)
        }
    }

    open spec fn spec_args(&self, system_details: SystemDetails) -> Option<Seq<Seq<char>>> {
        Some(seq![self.target_subcommand@, self.autoconfirm@])
    }

    open spec fn spec_needs_root(&self) -> bool {
        true
    }

    fn command_name(&self, system_details: SystemDetails) -> (r: Result<String, Error>) {
        if self.command_name.as_str().is_empty() {
            Err(Error::EmptyCommand)
        } else {
            Ok(self.command_name.clone())
        }
    }

    fn args(&self, system_details: SystemDetails) -> (r: Option<Vec<String>>) {
        let mut args: Vec<String> = Vec::new();
        args.push(self.target_subcommand.clone());
        args.push(self.autoconfirm.clone());
        assert(args.deep_view() =~= seq![self.target_subcommand@, self.autoconfirm@]);
        Some(args)
    }

    fn needs_root(&self) -> (r: bool) {
        true
    }
}

/// The details of the host that every operation is resolved against.
#[derive(Debug, Clone, Copy)]
pub struct SystemDetails {
    /// The operating system of the host.
    pub target_os: TargetOperatingSystem,
}

impl SystemDetails {
    /// The details of a host that runs `target_os`.
    pub fn new(target_os: TargetOperatingSystem) -> (r: SystemDetails)
        ensures
            r.target_os == target_os,
    {
        SystemDetails { target_os }
    }

    /// The details of the host described by a pair of release identifiers.
    pub fn from_release(os_id: Option<&str>, os_id_like: Option<&str>) -> (r: SystemDetails)
        ensures
            r.target_os == resolve_spec(text_of(os_id), text_of(os_id_like)),
    {
        SystemDetails { target_os: resolve(os_id, os_id_like) }
    }

    /// The package manager of this system.
    pub fn package_manager(self) -> (r: PackageManager)
        ensures
            r@ == package_manager_view(self.target_os),
    {
        package_manager_for(self.target_os)
    }

    /// The operating system of this system.
    pub fn current_os(self) -> (r: TargetOperatingSystem)
        ensures
            r == self.target_os,
    {
        self.target_os
    }
}

proof fn lemma_word_prefix(s: Seq<char>)
    ensures
        word_len(s) <= s.len(),
        forall|i: int| 0 <= i < word_len(s) ==> !is_whitespace(#[trigger] s[i]),
        word_len(s) < s.len() ==> is_whitespace(s[word_len(s) as int]),
    decreases s.len(),
{
    if s.len() > 0 && !is_whitespace(s[0]) {
        let rest = s.skip(1);
        lemma_word_prefix(rest);
        assert forall|i: int| 0 <= i < word_len(s) implies !is_whitespace(#[trigger] s[i]) by {
            if i > 0 {
                assert(s[i] == rest[i - 1]);
            }
        }
        if word_len(s) < s.len() {
            assert(s[word_len(s) as int] == rest[word_len(rest) as int]);
        }
    }
}

proof fn lemma_word_len_of_prefix(s: Seq<char>, tail: Seq<char>)
    requires
        forall|i: int| 0 <= i < s.len() ==> !is_whitespace(#[trigger] s[i]),
        tail.len() == 0 || is_whitespace(tail[0]),
    ensures
        word_len(s + tail) == s.len(),
    decreases s.len(),
{
    let whole = s + tail;
    if s.len() == 0 {
        assert(whole =~= tail);
    } else {
        assert(whole[0] == s[0]);
        let rest = s.skip(1);
        assert(whole.skip(1) =~= rest + tail);
        assert forall|i: int| 0 <= i < rest.len() implies !is_whitespace(#[trigger] rest[i]) by {
            assert(rest[i] == s[i + 1]);
        }
        lemma_word_len_of_prefix(rest, tail);
    }
}

/// The empty text has no words.
pub proof fn lemma_words_of_nothing()
    ensures
        words(Seq::<char>::empty()) == Seq::<Seq<char>>::empty(),
{
}

/// A text that is not empty and holds no white space is one word.
pub proof fn lemma_words_of_one_word(s: Seq<char>)
    requires
        s.len() > 0,
        forall|i: int| 0 <= i < s.len() ==> !is_whitespace(#[trigger] s[i]),
    ensures
        words(s) == seq![s],
{
    lemma_word_len_of_prefix(s, Seq::empty());
    assert(s + Seq::<char>::empty() =~= s);
    assert(s.take(s.len() as int) =~= s);
    assert(s.skip(s.len() as int) =~= Seq::<char>::empty());
    assert(words(Seq::<char>::empty()) =~= Seq::<Seq<char>>::empty());
    assert(word_len(s) == s.len());
    assert(words(s) =~= seq![s]);
}

/// White space separates: the words of two texts joined by a white-space
/// character are the words of the first, then the words of the second.
pub proof fn lemma_words_split(a: Seq<char>, separator: char, b: Seq<char>)
    requires
        is_whitespace(separator),
    ensures
        words(a + seq![separator] + b) == words(a) + words(b),
    decreases a.len(),
{
    let whole = a + seq![separator] + b;
    if a.len() == 0 {
        assert(whole.skip(1) =~= b);
        assert(whole[0] == separator);
        assert(words(a) + words(b) =~= words(b));
    } else if is_whitespace(a[0]) {
        assert(whole[0] == a[0]);
        assert(whole.skip(1) =~= a.skip(1) + seq![separator] + b);
        lemma_words_split(a.skip(1), separator, b);
    } else {
        let n = word_len(a) as int;
        lemma_word_prefix(a);
        let head = a.take(n);
        let tail = a.skip(n) + seq![separator] + b;
        assert(whole =~= head + tail);
        assert(tail[0] == if n < a.len() {
            a[n]
        } else {
            separator
        });
        lemma_word_len_of_prefix(head, tail);
        assert(whole[0] == a[0]);
        assert(whole.take(n) =~= head);
        assert(whole.skip(n) =~= tail);
        lemma_words_split(a.skip(n), separator, b);
        assert(words(whole) =~= words(a) + words(b));
    }
}

/// No word is empty, and no word holds white space.
pub proof fn lemma_words_are_words(s: Seq<char>)
    ensures
        forall|k: int|
            0 <= k < words(s).len() ==> (#[trigger] words(s)[k]).len() > 0 && forall|i: int|
                0 <= i < words(s)[k].len() ==> !is_whitespace(#[trigger] words(s)[k][i]),
    decreases s.len(),
{
    if s.len() == 0 {
        assert(words(s).len() == 0);
    } else if is_whitespace(s[0]) {
        lemma_words_are_words(s.skip(1));
        assert(words(s) == words(s.skip(1)));
    } else {
        let n = word_len(s) as int;
        lemma_word_prefix(s);
        lemma_words_are_words(s.skip(n));
        let first = s.take(n);
        let rest = words(s.skip(n));
        assert(words(s) == seq![first] + rest);
        assert forall|k: int| 0 <= k < words(s).len() implies (#[trigger] words(s)[k]).len() > 0
            && forall|i: int|
            0 <= i < words(s)[k].len() ==> !is_whitespace(#[trigger] words(s)[k][i]) by {
            if k == 0 {
                assert(words(s)[0] == first);
                assert forall|i: int| 0 <= i < first.len() implies !is_whitespace(
                    #[trigger] first[i],
                ) by {
                    assert(first[i] == s[i]);
                }
            } else {
                assert(words(s)[k] == rest[k - 1]);
            }
        }
    }
}

/// The table of release identifiers: each system is named by its aliases
/// and by nothing else, and every other name is `Unknown`.
pub proof fn lemma_alias_table()
    ensures
        forall|name: Seq<char>|
            os_for_name(name) == TargetOperatingSystem::Arch <==> (name == "arch"@ || name
                == "archlinux"@ || name == "manjaro"@),
        forall|name: Seq<char>|
            os_for_name(name) == TargetOperatingSystem::Debian <==> name == "debian"@,
        forall|name: Seq<char>|
            os_for_name(name) == TargetOperatingSystem::Ubuntu <==> name == "ubuntu"@,
        forall|name: Seq<char>|
            os_for_name(name) == TargetOperatingSystem::Mint <==> (name == "linuxmint"@ || name
                == "mint"@),
        forall|name: Seq<char>|
            os_for_name(name) == TargetOperatingSystem::Fedora <==> (name == "fedora"@ || name
                == "centos"@),
        forall|name: Seq<char>|
            os_for_name(name) == TargetOperatingSystem::RedHat <==> name == "rhel"@,
{
    reveal_strlit("arch");
    reveal_strlit("archlinux");
    reveal_strlit("manjaro");
    reveal_strlit("debian");
    reveal_strlit("ubuntu");
    reveal_strlit("linuxmint");
    reveal_strlit("mint");
    reveal_strlit("fedora");
    reveal_strlit("centos");
    reveal_strlit("rhel");
    // the names differ in length or in one of their first two characters
    assert("arch"@[0] == 'a' && "archlinux"@[0] == 'a' && "manjaro"@[0] == 'm');
    assert("debian"@[0] == 'd' && "ubuntu"@[0] == 'u' && "linuxmint"@[0] == 'l');
    assert("mint"@[1] == 'i' && "manjaro"@[1] == 'a');
    assert("fedora"@[0] == 'f' && "centos"@[0] == 'c' && "rhel"@[0] == 'r');
}

/// A recognised `os_id` decides alone: `os_id_like` is not looked at.
pub proof fn lemma_resolve_prefers_id(os_id: Seq<char>, os_id_like: Option<Seq<char>>)
    requires
        os_for_name(os_id) != TargetOperatingSystem::Unknown,
    ensures
        resolve_spec(Some(os_id), os_id_like) == os_for_name(os_id),
{
}

/// When `os_id` names no system, the first recognised word of `os_id_like`
/// decides, wherever it stands.
pub proof fn lemma_resolve_falls_back(os_id: Option<Seq<char>>, os_id_like: Seq<char>, k: int)
    requires
        unresolved(os_id),
        0 <= k < words(os_id_like).len(),
        os_for_name(words(os_id_like)[k]) != TargetOperatingSystem::Unknown,
        forall|j: int|
            0 <= j < k ==> os_for_name(#[trigger] words(os_id_like)[j])
                == TargetOperatingSystem::Unknown,
    ensures
        resolve_spec(os_id, Some(os_id_like)) == os_for_name(words(os_id_like)[k]),
{
    lemma_first_known(words(os_id_like), k);
}

/// When neither `os_id` nor any word of `os_id_like` names a system, the
/// result is `Unknown`.
pub proof fn lemma_resolve_unknown(os_id: Option<Seq<char>>, os_id_like: Option<Seq<char>>)
    requires
        unresolved(os_id),
        os_id_like matches Some(like) ==> forall|j: int|
            0 <= j < words(like).len() ==> os_for_name(#[trigger] words(like)[j])
                == TargetOperatingSystem::Unknown,
    ensures
        resolve_spec(os_id, os_id_like) == TargetOperatingSystem::Unknown,
{
    match os_id_like {
        Some(like) => {
            lemma_first_known_none(words(like));
        },
        None => {},
    }
}

/// The same identifiers always resolve to the same system, and the same
/// system always has the same package manager.
pub proof fn lemma_resolve_is_a_function(
    os_id: Option<Seq<char>>,
    os_id_like: Option<Seq<char>>,
    again_id: Option<Seq<char>>,
    again_like: Option<Seq<char>>,
)
    requires
        os_id == again_id,
        os_id_like == again_like,
    ensures
        resolve_spec(os_id, os_id_like) == resolve_spec(again_id, again_like),
        package_manager_view(resolve_spec(os_id, os_id_like)) == package_manager_view(
            resolve_spec(again_id, again_like),
        ),
{
}

proof fn lemma_first_known(names: Seq<Seq<char>>, k: int)
    requires
        0 <= k < names.len(),
        os_for_name(names[k]) != TargetOperatingSystem::Unknown,
        forall|j: int|
            0 <= j < k ==> os_for_name(#[trigger] names[j]) == TargetOperatingSystem::Unknown,
    ensures
        first_known(names) == os_for_name(names[k]),
    decreases names.len(),
{
    if k > 0 {
        assert(os_for_name(names[0]) == TargetOperatingSystem::Unknown);
        let rest = names.skip(1);
        assert(rest[k - 1] == names[k]);
        assert forall|j: int| 0 <= j < k - 1 implies os_for_name(#[trigger] rest[j])
            == TargetOperatingSystem::Unknown by {
            assert(rest[j] == names[j + 1]);
        }
        lemma_first_known(rest, k - 1);
    }
}

proof fn lemma_first_known_none(names: Seq<Seq<char>>)
    requires
        forall|j: int|
            0 <= j < names.len() ==> os_for_name(#[trigger] names[j])
                == TargetOperatingSystem::Unknown,
    ensures
        first_known(names) == TargetOperatingSystem::Unknown,
    decreases names.len(),
{
    if names.len() > 0 {
        let rest = names.skip(1);
        assert forall|j: int| 0 <= j < rest.len() implies os_for_name(#[trigger] rest[j])
            == TargetOperatingSystem::Unknown by {
            assert(rest[j] == names[j + 1]);
        }
        lemma_first_known_none(rest);
    }
}

/// The system without a package manager is `Unknown`, and only it: its
/// descriptor has an empty name, every other one can be run.
pub proof fn lemma_package_manager_names(target_os: TargetOperatingSystem)
    ensures
        package_manager_view(target_os).name.len() == 0 <==> target_os
            == TargetOperatingSystem::Unknown,
        target_os == TargetOperatingSystem::Unknown ==> package_manager_view(target_os)
            == (PackageManagerView {
            name: Seq::empty(),
            install_subcommand: Seq::empty(),
            update_subcommand: Seq::empty(),
            upgrade_subcommand: Seq::empty(),
            autoconfirm: Seq::empty(),
        }),
{
    reveal_strlit("pacman");
    reveal_strlit("apt-get");
    reveal_strlit("dnf");
    reveal_strlit("yum");
}

} // verus!
