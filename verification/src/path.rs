use vstd::prelude::*;
use vstd::string::StrSliceExecFns;
use vstd::string::StringExecFns;

verus! {

/// Whether `c` separates the directories of a path on some host.
pub open spec fn spec_is_separator(c: char) -> bool {
    c == '/' || c == '\\'
}

/// `name` without a leading drive specifier: without its first two
/// characters where the second is a colon.
pub open spec fn spec_strip_drive(name: Seq<char>) -> Seq<char> {
    if name.len() >= 2 && name[1] == ':' {
        name.subrange(2, name.len() as int)
    } else {
        name
    }
}

/// The number of separators that `name` begins with.
pub open spec fn spec_leading_separators(name: Seq<char>) -> int
    decreases name.len(),
{
    if name.len() > 0 && spec_is_separator(name[0]) {
        1 + spec_leading_separators(name.drop_first())
    } else {
        0
    }
}

/// `name` without the separators it begins with.
pub open spec fn spec_trim_separators(name: Seq<char>) -> Seq<char> {
    name.subrange(spec_leading_separators(name), name.len() as int)
}

/// `name` with every separator written as the host's `separator`.
pub open spec fn spec_use_separator(name: Seq<char>, separator: char) -> Seq<char> {
    Seq::new(
        name.len(),
        |i: int|
            if spec_is_separator(name[i]) {
                separator
            } else {
                name[i]
            },
    )
}

/// The path, relative to the served directory, that a requested file name
/// stands for: the name without a drive specifier and without leading
/// separators, its separators written as the host's.
pub open spec fn spec_convert_file_path(name: Seq<char>, separator: char) -> Seq<char> {
    spec_use_separator(spec_trim_separators(spec_strip_drive(name)), separator)
}

/// A file name with every separator written as the host's.
pub open spec fn spec_convert_file_path_abs(name: Seq<char>, separator: char) -> Seq<char> {
    spec_use_separator(name, separator)
}

/// Whether `path` holds two dots in a row.
pub open spec fn spec_has_dotdot(path: Seq<char>) -> bool {
    exists|i: int| 0 <= i && i + 1 < path.len() && path[i] == '.' && #[trigger] path[i + 1] == '.'
}

/// Whether `c` ends a component of a path on a host with the given
/// separator: the separator itself, and on a host that separates with a
/// backslash the slash too.
pub open spec fn spec_ends_component(c: char, separator: char) -> bool {
    c == separator || (separator == '\\' && c == '/')
}

/// Whether `file` lies in `directory` or below it, or is `directory`
/// itself: `directory` begins `file`, and ends where `file` ends or where
/// a component of `file` ends.
pub open spec fn spec_is_within(file: Seq<char>, directory: Seq<char>, separator: char) -> bool {
    &&& directory.len() <= file.len()
    &&& file.subrange(0, directory.len() as int) == directory
    &&& (directory.len() == file.len() || spec_ends_component(
        file[directory.len() as int],
        separator,
    ) || (directory.len() > 0 && spec_ends_component(directory.last(), separator)))
}

/// Whether the path `file` may be served from `directory`: it holds no
/// two dots in a row and lies within `directory`.
pub open spec fn spec_validate_file_path(
    file: Seq<char>,
    directory: Seq<char>,
    separator: char,
) -> bool {
    !spec_has_dotdot(file) && spec_is_within(file, directory, separator)
}

/// The path of `relative` in `directory`. An empty `relative` gives the
/// directory itself.
pub open spec fn spec_join_path(directory: Seq<char>, relative: Seq<char>, separator: char) -> Seq<
    char,
> {
    if relative.len() == 0 {
        directory
    } else if directory.len() > 0 && directory.last() == separator {
        directory + relative
    } else {
        directory + seq![separator] + relative
    }
}

/// Reads `std::path::MAIN_SEPARATOR`. The contract claims that the host
/// separates directories with a slash or with a backslash.
#[verifier::external_body]
fn main_separator() -> (c: char)
    ensures
        c == '/' || c == '\\',
{
    std::path::MAIN_SEPARATOR
}

/// The text of one character.
fn char_text(c: char, source: &str, at: usize) -> (r: &str)
    requires
        at < source@.len(),
        at < usize::MAX,
        source@[at as int] == c,
    ensures
        r@ == seq![c],
{
    let r = source.substring_char(at, at + 1);
    assert(r@ =~= seq![c]);
    r
}

/// The text of the separator `separator`.
fn separator_text(separator: char) -> (r: &'static str)
    requires
        spec_is_separator(separator),
    ensures
        r@ == seq![separator],
{
    proof {
        reveal_strlit("/");
        reveal_strlit("\\");
    }
    if separator == '/' {
        let r = "/";
        assert(r@ =~= seq!['/']);
        r
    } else {
        let r = "\\";
        assert(r@ =~= seq!['\\']);
        r
    }
}

/// Writes every separator of `name` as `separator`.
fn use_separator(name: &str, separator: char) -> (r: String)
    requires
        spec_is_separator(separator),
    ensures
        r@ == spec_use_separator(name@, separator),
{
    let n: usize = name.unicode_len();
    let mut out = String::new();
    let mut i: usize = 0;
    while i < n
        invariant
            i <= n,
            n == name@.len(),
            spec_is_separator(separator),
            out@ == spec_use_separator(name@, separator).subrange(0, i as int),
        decreases n - i,
    {
        let c = name.get_char(i);
        let piece: &str = if c == '/' || c == '\\' {
            separator_text(separator)
        } else {
            char_text(c, name, i)
        };
        out.append(piece);
        assert(out@ =~= spec_use_separator(name@, separator).subrange(0, i + 1));
        i += 1;
    }
    assert(out@ =~= spec_use_separator(name@, separator));
    out
}

/// A run of separators at the start of a name, followed by none, is all
/// of its leading separators.
proof fn lemma_leading_separators_unique(name: Seq<char>, count: int)
    requires
        0 <= count <= name.len(),
        forall|i: int| 0 <= i < count ==> spec_is_separator(#[trigger] name[i]),
        count < name.len() ==> !spec_is_separator(name[count]),
    ensures
        spec_leading_separators(name) == count,
    decreases name.len(),
{
    if count > 0 {
        let rest = name.drop_first();
        assert(spec_is_separator(name[0]));
        assert forall|i: int| 0 <= i < count - 1 implies spec_is_separator(#[trigger] rest[i]) by {
            assert(rest[i] == name[i + 1]);
        }
        if count - 1 < rest.len() {
            assert(rest[count - 1] == name[count]);
        }
        lemma_leading_separators_unique(rest, count - 1);
    }
}

/// The path, relative to the served directory, that a requested file name
/// stands for on a host with the given separator.
pub fn convert_file_path_with(filename: &str, separator: char) -> (r: String)
    requires
        spec_is_separator(separator),
    ensures
        r@ == spec_convert_file_path(filename@, separator),
{
    let n: usize = filename.unicode_len();
    let mut start: usize = 0;
    if n >= 2 && filename.get_char(1) == ':' {
        start = 2;
    }
    let ghost stripped = spec_strip_drive(filename@);
    assert(stripped =~= filename@.subrange(start as int, n as int));
    let base: usize = start;
    while start < n && (filename.get_char(start) == '/' || filename.get_char(start) == '\\')
        invariant
            base <= start <= n,
            n == filename@.len(),
            stripped == filename@.subrange(base as int, n as int),
            forall|i: int| 0 <= i < start - base ==> spec_is_separator(#[trigger] stripped[i]),
        decreases n - start,
    {
        assert(stripped[start - base] == filename@[start as int]);
        start += 1;
    }
    proof {
        if start < n {
            assert(stripped[start - base] == filename@[start as int]);
        }
        lemma_leading_separators_unique(stripped, start - base);
    }
    let trimmed = filename.substring_char(start, n);
    assert(trimmed@ =~= spec_trim_separators(stripped));
    use_separator(trimmed, separator)
}

/// The path, relative to the served directory, that a requested file name
/// stands for on this host.
pub fn convert_file_path(filename: &str) -> (r: String)
    ensures
        r@ == spec_convert_file_path(filename@, '/') || r@ == spec_convert_file_path(
            filename@,
            '\\',
        ),
{
    convert_file_path_with(filename, main_separator())
}

/// A file name with every separator written as the given one.
pub fn convert_file_path_abs_with(filename: &str, separator: char) -> (r: String)
    requires
        spec_is_separator(separator),
    ensures
        r@ == spec_convert_file_path_abs(filename@, separator),
{
    use_separator(filename, separator)
}

/// A file name with every separator written as this host's.
pub fn convert_file_path_abs(filename: &str) -> (r: String)
    ensures
        r@ == spec_convert_file_path_abs(filename@, '/') || r@ == spec_convert_file_path_abs(
            filename@,
            '\\',
        ),
{
    convert_file_path_abs_with(filename, main_separator())
}

/// Whether `path` holds two dots in a row.
pub fn has_dotdot(path: &str) -> (r: bool)
    ensures
        r == spec_has_dotdot(path@),
{
    let n: usize = path.unicode_len();
    if n < 2 {
        return false;
    }
    let mut i: usize = 0;
    let mut previous: bool = false;
    while i < n
        invariant
            i <= n,
            n == path@.len(),
            previous == (i > 0 && path@[i - 1] == '.'),
            forall|k: int| 0 <= k && k + 1 < i ==> !(path@[k] == '.' && #[trigger] path@[k + 1] == '.'),
        decreases n - i,
    {
        let dot: bool = path.get_char(i) == '.';
        if dot && previous {
            assert(path@[i - 1] == '.' && path@[i - 1 + 1] == '.');
            return true;
        }
        previous = dot;
        i += 1;
    }
    false
}

/// Whether `c` ends a component of a path on a host with the given
/// separator.
pub fn ends_component(c: char, separator: char) -> (r: bool)
    ensures
        r == spec_ends_component(c, separator),
{
    c == separator || (separator == '\\' && c == '/')
}

/// Whether `file` lies in `directory` or below it on a host with the
/// given separator.
pub fn is_within(file: &str, directory: &str, separator: char) -> (r: bool)
    ensures
        r == spec_is_within(file@, directory@, separator),
{
    let n: usize = file.unicode_len();
    let d: usize = directory.unicode_len();
    if d > n {
        return false;
    }
    let mut i: usize = 0;
    while i < d
        invariant
            i <= d <= n,
            n == file@.len(),
            d == directory@.len(),
            forall|k: int| 0 <= k < i ==> file@[k] == directory@[k],
        decreases d - i,
    {
        if file.get_char(i) != directory.get_char(i) {
            assert(file@.subrange(0, d as int)[i as int] != directory@[i as int]);
            return false;
        }
        i += 1;
    }
    assert(file@.subrange(0, d as int) =~= directory@);
    d == n || ends_component(file.get_char(d), separator) || (d > 0 && ends_component(
        directory.get_char(d - 1),
        separator,
    ))
}

/// Whether the path `file` may be served from `directory` on a host with
/// the given separator.
pub fn validate_file_path_with(file: &str, directory: &str, separator: char) -> (r: bool)
    ensures
        r == spec_validate_file_path(file@, directory@, separator),
{
    !has_dotdot(file) && is_within(file, directory, separator)
}

/// Whether the path `file` may be served from `directory` on this host.
pub fn validate_file_path(file: &str, directory: &str) -> (r: bool)
    ensures
        r == spec_validate_file_path(file@, directory@, '/') || r == spec_validate_file_path(
            file@,
            directory@,
            '\\',
        ),
{
    validate_file_path_with(file, directory, main_separator())
}

/// The path of `relative` in `directory` on a host with the given
/// separator.
pub fn join_path_with(directory: &str, relative: &str, separator: char) -> (r: String)
    requires
        spec_is_separator(separator),
    ensures
        r@ == spec_join_path(directory@, relative@, separator),
{
    let mut out = String::new();
    out.append(directory);
    assert(out@ =~= directory@);
    if relative.unicode_len() == 0 {
        return out;
    }
    let d: usize = directory.unicode_len();
    if !(d > 0 && directory.get_char(d - 1) == separator) {
        out.append(separator_text(separator));
    }
    out.append(relative);
    assert(out@ =~= spec_join_path(directory@, relative@, separator));
    out
}

} // verus!
