//! Downloads: which requested names are served, and from which path.
//!
//! The requested name comes from the network and is not trusted. A name that
//! could lead out of the working directory is refused as if the file did not
//! exist.
//!
//! What counts as a separator, and whether a drive letter makes a path
//! absolute, depends on the platform that serves. The caller says which
//! style of paths that platform reads; a name is judged by that style alone.

use crate::catalog::EntryKind;
use crate::config::MyConfig;
use crate::error::ShareError;
use crate::text::chars_of;
use crate::upload::{destination_path, spec_destination};
use vstd::prelude::*;
use vstd::string::*;

verus! {

/// How the serving platform reads a path.
#[derive(Clone, Copy, Debug, PartialEq, Eq, Structural)]
pub enum PathStyle {
    /// `/` alone separates segments, and every other character is an
    /// ordinary part of a name.
    Slash,
    /// `/` and `\` both separate segments, and a letter with a colon names a
    /// drive.
    SlashAndBackslash,
}

impl PathStyle {
    /// The style of a platform whose main separator is `main_separator`.
    pub open spec fn spec_for_separator(main_separator: char) -> PathStyle {
        if main_separator == '\\' {
            PathStyle::SlashAndBackslash
        } else {
            PathStyle::Slash
        }
    }

    /// The style of a platform, told by its main separator: a platform that
    /// writes `\` reads both separators, every other one reads `/` alone.
    pub fn for_separator(main_separator: char) -> (style: PathStyle)
        ensures
            style == PathStyle::spec_for_separator(main_separator),
    {
        if main_separator == '\\' {
            PathStyle::SlashAndBackslash
        } else {
            PathStyle::Slash
        }
    }
}

/// Whether `c` separates the segments of a path in the given style.
pub open spec fn is_separator(style: PathStyle, c: char) -> bool {
    c == '/' || (c == '\\' && style == PathStyle::SlashAndBackslash)
}

/// Whether `c` is a letter of the ASCII alphabet.
pub open spec fn is_ascii_letter(c: char) -> bool {
    'a' <= c <= 'z' || 'A' <= c <= 'Z'
}

/// Whether a segment `..` begins at position `i` of `name`: two dots with a
/// separator or the end of the name on either side.
pub open spec fn parent_segment_at(style: PathStyle, name: Seq<char>, i: int) -> bool {
    &&& 0 <= i
    &&& i + 1 < name.len()
    &&& name[i] == '.'
    &&& name[i + 1] == '.'
    &&& (i == 0 || is_separator(style, name[i - 1]))
    &&& (i + 2 == name.len() || is_separator(style, name[i + 2]))
}

/// Whether one of the segments of `name` is `..`.
pub open spec fn has_parent_segment(style: PathStyle, name: Seq<char>) -> bool {
    exists|i: int| parent_segment_at(style, name, i)
}

/// Whether `name` begins with a drive: a letter and a colon, in a style that
/// knows drives. In the other style a colon is an ordinary character.
pub open spec fn has_drive_prefix(style: PathStyle, name: Seq<char>) -> bool {
    style == PathStyle::SlashAndBackslash && name.len() >= 2 && is_ascii_letter(name[0])
        && name[1] == ':'
}

/// Whether `name` is an absolute path: it begins with a separator or with a
/// drive.
pub open spec fn is_absolute(style: PathStyle, name: Seq<char>) -> bool {
    (name.len() >= 1 && is_separator(style, name[0])) || has_drive_prefix(style, name)
}

/// Whether `name` is one segment: it is not empty and holds no separator.
pub open spec fn is_single_segment(style: PathStyle, name: Seq<char>) -> bool {
    name.len() > 0 && forall|i: int| 0 <= i < name.len() ==> !is_separator(style, #[trigger] name[i])
}

/// Whether `name` may be served: it is not empty, it is no absolute path, and
/// none of its segments is `..`.
pub open spec fn spec_safe_name(style: PathStyle, name: Seq<char>) -> bool {
    name.len() > 0 && !is_absolute(style, name) && !has_parent_segment(style, name)
}

/// The path from which `name` is served, or `NotFound` where the name is
/// refused.
pub open spec fn spec_download_path(
    style: PathStyle,
    working_dir: Seq<char>,
    name: Seq<char>,
) -> Result<Seq<char>, ShareError> {
    if spec_safe_name(style, name) {
        Ok(spec_destination(working_dir, name))
    } else {
        Err(ShareError::NotFound)
    }
}

/// What a path is found to be, with a text as a sequence of characters.
pub open spec fn spec_path_result(r: Result<String, ShareError>) -> Result<Seq<char>, ShareError> {
    match r {
        Ok(path) => Ok(path@),
        Err(e) => Err(e),
    }
}

fn separates(style: PathStyle, c: char) -> (b: bool)
    ensures
        b == is_separator(style, c),
{
    match style {
        PathStyle::Slash => c == '/',
        PathStyle::SlashAndBackslash => c == '/' || c == '\\',
    }
}

fn names_drive(style: PathStyle, first: char, second: char) -> (b: bool)
    ensures
        b == (style == PathStyle::SlashAndBackslash && is_ascii_letter(first) && second == ':'),
{
    match style {
        PathStyle::Slash => false,
        PathStyle::SlashAndBackslash => second == ':' && (('a' <= first && first <= 'z') || ('A'
            <= first && first <= 'Z')),
    }
}

/// Whether a requested name may be served on a platform of the given style.
pub fn is_safe_name(style: PathStyle, name: &str) -> (safe: bool)
    ensures
        safe == spec_safe_name(style, name@),
{
    let chars = chars_of(name);
    let n = chars.len();
    if n == 0 {
        return false;
    }
    if separates(style, chars[0]) {
        return false;
    }
    if n >= 2 && names_drive(style, chars[0], chars[1]) {
        return false;
    }
    let mut i: usize = 0;
    while i + 1 < n
        invariant
            n == chars.len(),
            n >= 1,
            i + 1 <= n,
            chars@ == name@,
            forall|k: int| 0 <= k < i ==> !parent_segment_at(style, name@, k),
        decreases n - i,
    {
        if chars[i] == '.' && chars[i + 1] == '.' && (i == 0 || separates(style, chars[i - 1]))
            && (i + 2 == n || separates(style, chars[i + 2])) {
            assert(parent_segment_at(style, name@, i as int));
            return false;
        }
        i += 1;
    }
    true
}

/// The path from which a requested file is served: the name below the
/// working directory. A name that is empty, that is an absolute path, or that
/// holds a segment `..`, each as the serving platform reads it, is answered
/// with `NotFound`, whatever is on disk. Every other name gets its path.
pub fn download_file(config: &MyConfig, style: PathStyle, path_name: &str) -> (path: Result<
    String,
    ShareError,
>)
    ensures
        spec_path_result(path) == spec_download_path(style, config@.working_dir, path_name@),
{
    if is_safe_name(style, path_name) {
        Ok(destination_path(config.working_dir(), path_name))
    } else {
        Err(ShareError::NotFound)
    }
}

/// Whether what was found at the path may be sent: only a regular file is.
/// Nothing there, a directory, a symlink or a special file is `NotFound`.
pub fn check_target(found: Option<EntryKind>) -> (sent: Result<(), ShareError>)
    ensures
        sent == if found == Some(EntryKind::File) {
            Ok::<(), ShareError>(())
        } else {
            Err::<(), ShareError>(ShareError::NotFound)
        },
{
    match found {
        Some(EntryKind::File) => Ok(()),
        _ => Err(ShareError::NotFound),
    }
}

/// Whether the path `path` lies below the directory `dir`: it begins with
/// `dir`, a separator of the style stands between the two, and something
/// follows the separator. Both are meant to be canonical paths, without `.`,
/// `..` or symlinks.
pub open spec fn spec_is_below(style: PathStyle, dir: Seq<char>, path: Seq<char>) -> bool {
    &&& 0 < dir.len() < path.len()
    &&& path.take(dir.len() as int) == dir
    &&& (is_separator(style, dir.last()) || (is_separator(style, path[dir.len() as int])
        && dir.len() + 1 < path.len()))
}

/// Whether a canonical path lies below a canonical directory, on a platform
/// of the given style.
pub fn is_below(style: PathStyle, dir: &str, path: &str) -> (below: bool)
    ensures
        below == spec_is_below(style, dir@, path@),
{
    let d = chars_of(dir);
    let p = chars_of(path);
    let n = d.len();
    if n == 0 || p.len() <= n {
        return false;
    }
    let mut i: usize = 0;
    while i < n
        invariant
            i <= n,
            n == d.len(),
            n < p.len(),
            d@ == dir@,
            p@ == path@,
            forall|k: int| 0 <= k < i ==> d[k] == p[k],
        decreases n - i,
    {
        if d[i] != p[i] {
            assert(path@.take(n as int)[i as int] != dir@[i as int]);
            return false;
        }
        i += 1;
    }
    assert(path@.take(n as int) =~= dir@);
    separates(style, d[n - 1]) || (separates(style, p[n]) && n + 1 < p.len())
}

/// Confirms that what a requested name led to lies below the working
/// directory, both taken as canonical paths. Anything else is `NotFound`.
pub fn confirm_descendant(style: PathStyle, working_dir: &str, resolved: &str) -> (confirmed:
    Result<(), ShareError>)
    ensures
        confirmed == if spec_is_below(style, working_dir@, resolved@) {
            Ok::<(), ShareError>(())
        } else {
            Err::<(), ShareError>(ShareError::NotFound)
        },
{
    if is_below(style, working_dir, resolved) {
        Ok(())
    } else {
        Err(ShareError::NotFound)
    }
}

/// The text of a path that may be absent.
pub open spec fn spec_path_text(path: Option<String>) -> Option<Seq<char>> {
    match path {
        Some(text) => Some(text@),
        None => None,
    }
}

/// Whether what a requested name led to may be sent: a regular file was
/// found there, the working directory and the file both have a canonical
/// path, and the file's lies below the directory's.
pub open spec fn spec_may_send(
    style: PathStyle,
    found: Option<EntryKind>,
    canonical_dir: Option<Seq<char>>,
    canonical_path: Option<Seq<char>>,
) -> bool {
    &&& found == Some(EntryKind::File)
    &&& canonical_dir is Some
    &&& canonical_path is Some
    &&& spec_is_below(style, canonical_dir->Some_0, canonical_path->Some_0)
}

/// Decides from what was found on disk whether the file may be sent. It is
/// sent only if it is a regular file that lies, by its canonical path, below
/// the working directory; in every other case the answer is `NotFound`, so
/// that nothing outside the working directory is ever sent.
pub fn confirm_target(
    style: PathStyle,
    found: Option<EntryKind>,
    canonical_dir: Option<String>,
    canonical_path: Option<String>,
) -> (confirmed: Result<(), ShareError>)
    ensures
        confirmed == if spec_may_send(
            style,
            found,
            spec_path_text(canonical_dir),
            spec_path_text(canonical_path),
        ) {
            Ok::<(), ShareError>(())
        } else {
            Err::<(), ShareError>(ShareError::NotFound)
        },
{
    match check_target(found) {
        Err(error) => Err(error),
        Ok(()) => match (canonical_dir, canonical_path) {
            (Some(dir), Some(path)) => confirm_descendant(style, dir.as_str(), path.as_str()),
            _ => Err(ShareError::NotFound),
        },
    }
}

/// A name is refused exactly if it is empty, is absolute, or holds a segment
/// `..`, as the style reads it; every other name gets the path below the
/// working directory.
pub proof fn lemma_refusal_is_exact(style: PathStyle, working_dir: Seq<char>, name: Seq<char>)
    ensures
        spec_download_path(style, working_dir, name) is Err <==> (name.len() == 0 || is_absolute(
            style,
            name,
        ) || has_parent_segment(style, name)),
        spec_download_path(style, working_dir, name) is Err ==> spec_download_path(
            style,
            working_dir,
            name,
        ) == Err::<Seq<char>, ShareError>(ShareError::NotFound),
        spec_download_path(style, working_dir, name) is Ok ==> spec_download_path(
            style,
            working_dir,
            name,
        ) == Ok::<Seq<char>, ShareError>(spec_destination(working_dir, name)),
{
}

/// A name that points upwards or is absolute is never served.
pub proof fn lemma_traversal_refused(style: PathStyle, working_dir: Seq<char>, name: Seq<char>)
    requires
        has_parent_segment(style, name) || is_absolute(style, name),
    ensures
        spec_download_path(style, working_dir, name) == Err::<Seq<char>, ShareError>(
            ShareError::NotFound,
        ),
{
}

/// A name of one segment is served unless it is `..` or begins with a drive.
pub proof fn lemma_single_segment_served(style: PathStyle, working_dir: Seq<char>, name: Seq<char>)
    requires
        is_single_segment(style, name),
        name != seq!['.', '.'],
        !has_drive_prefix(style, name),
    ensures
        spec_download_path(style, working_dir, name) == Ok::<Seq<char>, ShareError>(
            spec_destination(working_dir, name),
        ),
{
    assert(!is_separator(style, name[0]));
    assert forall|i: int| !parent_segment_at(style, name, i) by {
        if parent_segment_at(style, name, i) {
            if i != 0 {
                assert(!is_separator(style, name[i - 1]));
            } else if i + 2 != name.len() {
                assert(!is_separator(style, name[i + 2]));
            } else {
                assert(name =~= seq!['.', '.']);
            }
        }
    }
}

/// Where `/` alone separates, every name of one segment but `..` is served:
/// a backslash and a colon are ordinary characters of a name there.
pub proof fn lemma_single_segment_served_by_slash(working_dir: Seq<char>, name: Seq<char>)
    requires
        is_single_segment(PathStyle::Slash, name),
        name != seq!['.', '.'],
    ensures
        spec_download_path(PathStyle::Slash, working_dir, name) == Ok::<Seq<char>, ShareError>(
            spec_destination(working_dir, name),
        ),
{
    lemma_single_segment_served(PathStyle::Slash, working_dir, name);
}

/// Every path that is served is the working directory, a separator and the
/// requested name, and the name neither points upwards nor is absolute.
pub proof fn lemma_served_below_working_dir(
    style: PathStyle,
    working_dir: Seq<char>,
    name: Seq<char>,
)
    requires
        spec_download_path(style, working_dir, name) is Ok,
    ensures
        spec_download_path(style, working_dir, name)->Ok_0 == working_dir + seq!['/'] + name,
        spec_download_path(style, working_dir, name)->Ok_0.take(working_dir.len() as int + 1)
            == working_dir + seq!['/'],
        !has_parent_segment(style, name),
        !is_absolute(style, name),
        name.len() > 0,
{
    let path = working_dir + seq!['/'] + name;
    assert(path.take(working_dir.len() as int + 1) =~= working_dir + seq!['/']);
}

/// A directory, a separator of the style and a name that is not empty make a
/// path below the directory. So the path from which a name is served lies,
/// as it is written, below the working directory, and a file that lies in
/// the working directory itself is never refused as lying outside.
pub proof fn lemma_joined_path_is_below(
    style: PathStyle,
    dir: Seq<char>,
    separator: char,
    name: Seq<char>,
)
    requires
        dir.len() > 0,
        name.len() > 0,
        is_separator(style, separator),
    ensures
        spec_is_below(style, dir, dir + seq![separator] + name),
        spec_download_path(style, dir, name) is Ok ==> spec_is_below(
            style,
            dir,
            spec_download_path(style, dir, name)->Ok_0,
        ),
{
    let path = dir + seq![separator] + name;
    assert(path.take(dir.len() as int) =~= dir);
    assert(path[dir.len() as int] == separator);
    let served = dir + seq!['/'] + name;
    assert(served.take(dir.len() as int) =~= dir);
    assert(served[dir.len() as int] == '/');
}

/// A path is below a directory only if a separator of the style follows the
/// directory's text, or ends it. A character that is no separator in the
/// style never makes the step down: where `/` alone separates, a path that
/// goes on with a backslash after the directory's text lies beside the
/// directory, not below it.
pub proof fn lemma_below_needs_separator(style: PathStyle, dir: Seq<char>, path: Seq<char>)
    requires
        0 < dir.len() < path.len(),
        !is_separator(style, dir.last()),
        !is_separator(style, path[dir.len() as int]),
    ensures
        !spec_is_below(style, dir, path),
{
}

/// A file that was stored under a name that may be served is served from the
/// path to which it was written.
pub proof fn lemma_served_where_stored(style: PathStyle, working_dir: Seq<char>, name: Seq<char>)
    requires
        spec_safe_name(style, name),
    ensures
        spec_download_path(style, working_dir, name) == Ok::<Seq<char>, ShareError>(
            spec_destination(working_dir, name),
        ),
{
}

} // verus!
