//! The last part of a path.

use std::path::Path;
use vstd::prelude::*;

verus! {

/// What stands behind the last slash.
pub open spec fn last_segment(path: Seq<char>) -> Seq<char>
    decreases path.len(),
{
    if path.len() == 0 || path.last() == '/' {
        Seq::empty()
    } else {
        last_segment(path.drop_last()).push(path.last())
    }
}

/// The name of the file or the directory that a path of slashes leads to. Slashes at the end do not count,
/// nor do segments that stand for the directory itself; a path that ends in its parent has no
/// name.
pub open spec fn file_name(path: Seq<char>) -> Option<Seq<char>>
    decreases path.len(),
{
    let segment = last_segment(path);
    if segment.len() == 0 || segment == seq!['.'] {
        if path.len() > segment.len() {
            file_name(path.take(path.len() - segment.len() - 1))
        } else {
            None
        }
    } else if segment == seq!['.', '.'] {
        None
    } else {
        Some(segment)
    }
}

/// A path with slashes in place of its backslashes.
pub open spec fn slashed(path: Seq<char>) -> Seq<char> {
    path.map_values(
        |c: char|
            if c == '\\' {
                '/'
            } else {
                c
            },
    )
}

/// Whether a path may start with a drive.
pub open spec fn has_drive(path: Seq<char>) -> bool {
    path.len() >= 2 && path[1] == ':'
}

/// Whether a path may start with a share or a device: with two slashes or backslashes.
pub open spec fn has_share(path: Seq<char>) -> bool {
    slashed(path).len() >= 2 && slashed(path)[0] == '/' && slashed(path)[1] == '/'
}

/// Whether Unix and Windows break a path up alike: it holds no backslash, and it starts neither with
/// a drive nor with a share.
pub open spec fn portable(path: Seq<char>) -> bool {
    &&& forall|i: int| 0 <= i < path.len() ==> path[i] != '\\'
    &&& !has_drive(path)
    &&& !has_share(path)
}

/// Whether a text is a piece of a path.
pub open spec fn piece_of(text: Seq<char>, path: Seq<char>) -> bool {
    exists|from: int|
        0 <= from <= path.len() - text.len() && #[trigger] path.subrange(from, from + text.len())
            == text
}

/// Whether a system may take this for the name that a path leads to.
///
/// Either slashes alone keep the parts of a path apart, or backslashes do so too; then a drive at the
/// start is none of the parts. Of a path that may start with a share, a name is a piece.
pub open spec fn possible_name(path: Seq<char>, name: Option<Seq<char>>) -> bool {
    ||| name == file_name(path)
    ||| name == file_name(slashed(path))
    ||| has_drive(path) && name == file_name(slashed(path.skip(2)))
    ||| has_share(path) && (name matches Some(name) ==> piece_of(name, path))
}

/// The name of the file or the directory that a path leads to, by `std::path::Path::file_name`, which
/// goes by the rules of the system that the program runs on.
///
/// The claim is that the name is the last component of the path, once separators and single dots at
/// the end are left out, and that there is none where the path ends in two dots. The components are
/// kept apart by slashes on Unix, and by slashes and backslashes on Windows, where a drive is no
/// component that has a name. Of a path that may start with a share or a device it is left unsaid
/// how far those reach on Windows: only that a name is a piece of the path.
#[verifier::external_body]
pub(crate) fn name_of(path: &str) -> (r: Option<String>)
    ensures
        possible_name(path@, r.deep_view()),
{
    Path::new(path).file_name().map(|name| name.to_string_lossy().into_owned())
}

} // verus!
