//! The syntax of a configuration file, guessed from its name.

use vstd::prelude::*;
use vstd::string::StringExecFns;
use crate::error::{Error, ErrorView};
use crate::text::to_chars;

verus! {

/// The syntaxes a configuration file can be written in.
#[derive(Debug, Clone, Copy, PartialEq, Eq, Structural)]
pub enum FileSyntax {
    Toml,
    Yaml,
    Json,
    Unknown,
}

/// The index of the last `c` in `s`, or -1 when `s` holds none.
pub open spec fn last_index_of(s: Seq<char>, c: char) -> int
    decreases s.len(),
{
    if s.len() == 0 {
        -1
    } else if s.last() == c {
        s.len() - 1
    } else {
        last_index_of(s.drop_last(), c)
    }
}

/// The last component of a path: what follows its last `/`.
pub open spec fn file_name(path: Seq<char>) -> Seq<char> {
    path.skip(last_index_of(path, '/') + 1)
}

/// The extension of a path: what follows the last `.` of its file name.
/// A file name without a `.`, or with its only `.` in front, has none.
pub open spec fn extension(path: Seq<char>) -> Option<Seq<char>> {
    let name = file_name(path);
    let dot = last_index_of(name, '.');
    if dot <= 0 {
        None
    } else {
        Some(name.skip(dot + 1))
    }
}

/// `c` with an upper-case ASCII letter replaced by its lower-case form.
pub open spec fn lower(c: char) -> char {
    if 'A' <= c <= 'Z' {
        ((c as u8) + 32) as u8 as char
    } else {
        c
    }
}

/// `s` with every upper-case ASCII letter in lower case.
pub open spec fn lowercase(s: Seq<char>) -> Seq<char> {
    Seq::new(s.len(), |i: int| lower(s[i]))
}

/// The syntax that the extension of `path` stands for, compared without
/// regard to the case of ASCII letters.
pub open spec fn syntax_of(path: Seq<char>) -> FileSyntax {
    match extension(path) {
        Some(ext) => {
            let word = lowercase(ext);
            if word == "toml"@ {
                FileSyntax::Toml
            } else if word == "yaml"@ || word == "yml"@ {
                FileSyntax::Yaml
            } else if word == "json"@ {
                FileSyntax::Json
            } else {
                FileSyntax::Unknown
            }
        },
        None => FileSyntax::Unknown,
    }
}

/// Where the last `c` of `s` stands: at an index of `s` that holds `c`
/// and behind which no `c` follows, or nowhere.
pub proof fn lemma_last_index_of(s: Seq<char>, c: char)
    ensures
        -1 <= last_index_of(s, c) < s.len(),
        last_index_of(s, c) >= 0 ==> s[last_index_of(s, c)] == c,
        forall|i: int| last_index_of(s, c) < i < s.len() ==> #[trigger] s[i] != c,
    decreases s.len(),
{
    if s.len() > 0 && s.last() != c {
        let front = s.drop_last();
        lemma_last_index_of(front, c);
        assert forall|i: int| last_index_of(s, c) < i < s.len() implies #[trigger] s[i] != c by {
            if i < front.len() {
                assert(s[i] == front[i]);
            }
        }
        if last_index_of(s, c) >= 0 {
            assert(s[last_index_of(s, c)] == front[last_index_of(front, c)]);
        }
    }
}

proof fn lemma_last_index_before(s: Seq<char>, tail: Seq<char>, c: char)
    requires
        forall|i: int| 0 <= i < tail.len() ==> #[trigger] tail[i] != c,
    ensures
        last_index_of(s + tail, c) == last_index_of(s, c),
    decreases tail.len(),
{
    if tail.len() == 0 {
        assert(s + tail =~= s);
    } else {
        let whole = s + tail;
        assert(whole.drop_last() =~= s + tail.drop_last());
        assert(whole.last() == tail.last());
        assert forall|i: int| 0 <= i < tail.drop_last().len() implies #[trigger] tail.drop_last()[i]
            != c by {
            assert(tail.drop_last()[i] == tail[i]);
        }
        lemma_last_index_before(s, tail.drop_last(), c);
    }
}

/// The directory of a path plays no part in its syntax: a name without a
/// `/` stands for the same syntax below any directory.
pub proof fn lemma_directory_plays_no_part(directory: Seq<char>, name: Seq<char>)
    requires
        forall|i: int| 0 <= i < name.len() ==> #[trigger] name[i] != '/',
    ensures
        file_name(directory + seq!['/'] + name) == name,
        file_name(name) == name,
        syntax_of(directory + seq!['/'] + name) == syntax_of(name),
{
    let front = directory + seq!['/'];
    assert(front =~= directory.push('/'));
    assert(front.last() == '/');
    lemma_last_index_before(front, name, '/');
    assert((front + name).skip(directory.len() as int + 1) =~= name);
    lemma_last_index_before(Seq::empty(), name, '/');
    assert(Seq::<char>::empty() + name =~= name);
    assert(name.skip(0) =~= name);
}

/// A file name made of a stem that is not empty, a `.` and an extension
/// has that extension, if the extension holds no `.` and neither part
/// holds a `/`.
pub proof fn lemma_extension_of_name(stem: Seq<char>, ext: Seq<char>)
    requires
        stem.len() > 0,
        forall|i: int| 0 <= i < stem.len() ==> #[trigger] stem[i] != '/',
        forall|i: int| 0 <= i < ext.len() ==> #[trigger] ext[i] != '/' && ext[i] != '.',
    ensures
        extension(stem + seq!['.'] + ext) == Some(ext),
{
    let name = stem + seq!['.'] + ext;
    assert forall|i: int| 0 <= i < name.len() implies #[trigger] name[i] != '/' by {
        if i < stem.len() {
            assert(name[i] == stem[i]);
        } else if i > stem.len() {
            assert(name[i] == ext[i - stem.len() - 1]);
        }
    }
    lemma_directory_plays_no_part(Seq::empty(), name);
    let front = stem + seq!['.'];
    assert(front =~= stem.push('.'));
    assert(front.last() == '.');
    lemma_last_index_before(front, ext, '.');
    assert(name.skip(stem.len() as int + 1) =~= ext);
}

/// A file name without a `.`, or with its only `.` in front, has no
/// extension and stands for no syntax.
pub proof fn lemma_no_extension(name: Seq<char>)
    requires
        forall|i: int| 0 <= i < name.len() ==> #[trigger] name[i] != '/',
        forall|i: int| 1 <= i < name.len() ==> #[trigger] name[i] != '.',
    ensures
        extension(name) is None,
        syntax_of(name) == FileSyntax::Unknown,
{
    lemma_directory_plays_no_part(Seq::empty(), name);
    lemma_last_index_of(name, '.');
    if last_index_of(name, '.') >= 1 {
        assert(name[last_index_of(name, '.')] == '.');
    }
}

/// The four extensions, in any case of their letters, stand for their
/// syntax: what `syntax_of` makes of an extension depends on its
/// lower-case form alone.
pub proof fn lemma_case_plays_no_part(stem: Seq<char>, ext: Seq<char>, other: Seq<char>)
    requires
        stem.len() > 0,
        forall|i: int| 0 <= i < stem.len() ==> #[trigger] stem[i] != '/',
        forall|i: int| 0 <= i < ext.len() ==> #[trigger] ext[i] != '/' && ext[i] != '.',
        forall|i: int| 0 <= i < other.len() ==> #[trigger] other[i] != '/' && other[i] != '.',
        lowercase(ext) == lowercase(other),
    ensures
        syntax_of(stem + seq!['.'] + ext) == syntax_of(stem + seq!['.'] + other),
{
    lemma_extension_of_name(stem, ext);
    lemma_extension_of_name(stem, other);
}

fn to_lower(c: char) -> (r: char)
    ensures
        r == lower(c),
{
    if 'A' <= c && c <= 'Z' {
        ((c as u8) + 32) as char
    } else {
        c
    }
}

/// The last `c` at or after `start`, as an offset from `start`.
fn find_last(chars: &Vec<char>, start: usize, c: char) -> (r: Option<usize>)
    requires
        start <= chars.len(),
    ensures
        match r {
            Some(i) => i == last_index_of(chars@.skip(start as int), c) && start + i < chars.len(),
            None => last_index_of(chars@.skip(start as int), c) == -1,
        },
{
    let ghost tail = chars@.skip(start as int);
    let mut i: usize = chars.len();
    assert(tail.take(tail.len() as int) =~= tail);
    while i > start
        invariant
            start <= i <= chars.len(),
            tail == chars@.skip(start as int),
            last_index_of(tail, c) == last_index_of(tail.take(i - start), c),
        decreases i,
    {
        let ghost prefix = tail.take(i - start);
        assert(prefix.last() == chars@[i - 1]);
        assert(prefix.drop_last() =~= tail.take(i - 1 - start));
        if chars[i - 1] == c {
            return Some(i - 1 - start);
        }
        i = i - 1;
    }
    assert(tail.take(0).len() == 0);
    None
}

/// Whether the characters from `start` on spell `word` when upper-case
/// ASCII letters are read as lower case.
fn spells(chars: &Vec<char>, start: usize, word: &str) -> (r: bool)
    requires
        start <= chars.len(),
    ensures
        r == (lowercase(chars@.skip(start as int)) == word@),
{
    let expected = to_chars(word);
    let ghost tail = chars@.skip(start as int);
    if chars.len() - start != expected.len() {
        return false;
    }
    let mut i: usize = 0;
    while i < expected.len()
        invariant
            i <= expected.len(),
            expected@ == word@,
            tail == chars@.skip(start as int),
            start + expected.len() == chars.len(),
            forall|k: int| 0 <= k < i ==> lower(tail[k]) == expected@[k],
        decreases expected.len() - i,
    {
        if to_lower(chars[start + i]) != expected[i] {
            assert(lowercase(tail)[i as int] != word@[i as int]);
            return false;
        }
        i = i + 1;
    }
    assert(lowercase(tail) =~= word@);
    true
}

/// Guesses the syntax of a configuration file from the extension of its
/// path.
pub fn guess_file_syntax(path: &str) -> (r: FileSyntax)
    ensures
        r == syntax_of(path@),
{
    let chars = to_chars(path);
    let name_start: usize = match find_last(&chars, 0, '/') {
        Some(slash) => slash + 1,
        None => 0,
    };
    assert(chars@.skip(0) =~= chars@);
    let ghost name = file_name(path@);
    assert(name == chars@.skip(name_start as int));
    match find_last(&chars, name_start, '.') {
        Some(dot) => {
            if dot == 0 {
                FileSyntax::Unknown
            } else {
                let ext_start: usize = name_start + dot + 1;
                assert(name.skip(dot + 1) =~= chars@.skip(ext_start as int));
                if spells(&chars, ext_start, "toml") {
                    FileSyntax::Toml
                } else if spells(&chars, ext_start, "yaml") || spells(&chars, ext_start, "yml") {
                    FileSyntax::Yaml
                } else if spells(&chars, ext_start, "json") {
                    FileSyntax::Json
                } else {
                    FileSyntax::Unknown
                }
            }
        },
        None => FileSyntax::Unknown,
    }
}

/// The syntaxes to try on the contents of a file, in order: the assumed
/// syntax alone, or every syntax when none is assumed.
pub open spec fn parse_order_spec(assumed: FileSyntax) -> Seq<FileSyntax> {
    match assumed {
        FileSyntax::Unknown => seq![FileSyntax::Toml, FileSyntax::Yaml, FileSyntax::Json],
        known => seq![known],
    }
}

/// The syntaxes to try on the contents of a file, in order. The first one
/// that parses gives the configuration.
pub fn parse_order(assumed: FileSyntax) -> (r: Vec<FileSyntax>)
    ensures
        r@ == parse_order_spec(assumed),
{
    let mut order: Vec<FileSyntax> = Vec::new();
    match assumed {
        FileSyntax::Unknown => {
            order.push(FileSyntax::Toml);
            order.push(FileSyntax::Yaml);
            order.push(FileSyntax::Json);
        },
        known => {
            order.push(known);
        },
    }
    assert(order@ =~= parse_order_spec(assumed));
    order
}

/// The error to report when every syntax of the parse order has failed,
/// `last` being the error of the last attempt: the parser's own error
/// for an assumed syntax, a general one when every syntax was tried.
pub fn parse_failure(assumed: FileSyntax, last: Error) -> (r: Error)
    ensures
        assumed != FileSyntax::Unknown ==> r@ == last@,
        assumed == FileSyntax::Unknown ==> r@ == ErrorView::ConfigurationError(
            "Was unable to parse config file contents using any syntax"@,
        ),
{
    match assumed {
        FileSyntax::Unknown => Error::ConfigurationError(
            String::from_str("Was unable to parse config file contents using any syntax"),
        ),
        _ => last,
    }
}

} // verus!
