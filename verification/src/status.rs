//! The status of a file and the line of characters that shows it.

use vstd::prelude::*;
use crate::colored_string::ColoredString;
use crate::model::lemma_push_str_rendered;
use crate::model::ColoredText;
use crate::submodule::lemma_submodule_status_rendered;
use crate::submodule::submodule_line;
use crate::submodule::submodule_status_to_string;
use crate::submodule::with_submodule_status;
use crate::submodule::SubmoduleStatus;

verus! {

/// New in the index.
pub const INDEX_NEW: u32 = 0x0001;

/// Modified in the index.
pub const INDEX_MODIFIED: u32 = 0x0002;

/// Deleted from the index.
pub const INDEX_DELETED: u32 = 0x0004;

/// Renamed in the index.
pub const INDEX_RENAMED: u32 = 0x0008;

/// Of another type in the index.
pub const INDEX_TYPECHANGE: u32 = 0x0010;

/// New in the working tree.
pub const WT_NEW: u32 = 0x0080;

/// Modified in the working tree.
pub const WT_MODIFIED: u32 = 0x0100;

/// Deleted from the working tree.
pub const WT_DELETED: u32 = 0x0200;

/// Of another type in the working tree.
pub const WT_TYPECHANGE: u32 = 0x0400;

/// Renamed in the working tree.
pub const WT_RENAMED: u32 = 0x0800;

/// Ignored.
pub const IGNORED: u32 = 0x4000;

/// In conflict.
pub const CONFLICTED: u32 = 0x8000;

/// The flags that describe a file, one bit each.
#[derive(Clone, Copy, Debug, PartialEq, Eq, Structural)]
pub struct Status {
    pub bits: u32,
}

impl Status {
    /// Whether one of `flags` is set.
    pub open spec fn has(self, flags: u32) -> bool {
        self.bits & flags != 0
    }

    /// Whether one of `flags` is set.
    pub fn intersects(&self, flags: u32) -> (ret: bool)
        ensures
            ret == self.has(flags),
    {
        self.bits & flags != 0
    }
}

/// What stands in a column that has nothing to show: a space where the
/// line is coloured, a dot where it is not.
pub open spec fn blank(colored: bool) -> char {
    if colored {
        ' '
    } else {
        '.'
    }
}

/// The kind of entry: ignored, untracked, unmerged, renamed or ordinary.
pub open spec fn entry_kind(status: Status) -> char {
    if status.has(IGNORED) {
        '!'
    } else if status.has(WT_NEW) {
        '?'
    } else if status.has(CONFLICTED) {
        'u'
    } else if status.has(INDEX_RENAMED) || status.has(WT_RENAMED) {
        '2'
    } else {
        '1'
    }
}

/// How the file differs between head and index.
pub open spec fn index_change(status: Status, colored: bool) -> char {
    if status.has(INDEX_NEW) {
        '?'
    } else if status.has(INDEX_MODIFIED) {
        'M'
    } else if status.has(INDEX_DELETED) {
        'D'
    } else if status.has(INDEX_RENAMED) {
        'R'
    } else if status.has(INDEX_TYPECHANGE) {
        'T'
    } else {
        blank(colored)
    }
}

/// How the file differs between index and working tree.
pub open spec fn worktree_change(status: Status, colored: bool) -> char {
    if status.has(WT_MODIFIED) {
        'M'
    } else if status.has(WT_DELETED) {
        'D'
    } else if status.has(WT_TYPECHANGE) {
        'T'
    } else if status.has(WT_RENAMED) {
        'R'
    } else {
        blank(colored)
    }
}

/// The five characters of a file: its kind, a space, its two columns of
/// changes, a space.
pub open spec fn status_columns(status: Status, colored: bool) -> Seq<char> {
    seq![
        entry_kind(status),
        ' ',
        index_change(status, colored),
        worktree_change(status, colored),
        ' ',
    ]
}

/// The four characters that stand for a file that is no submodule.
pub open spec fn no_submodule() -> Seq<char> {
    seq!['N', '.', '.', '.']
}

/// A buffer after the status of a file has been written to it: the file's
/// five characters, then those of the submodule, or of none.
pub open spec fn with_status(
    buffer: ColoredText,
    status: Status,
    submodule_status: Option<SubmoduleStatus>,
    colored: bool,
) -> ColoredText {
    let file = buffer.push_str(status_columns(status, colored));
    match submodule_status {
        None => file.push_str(no_submodule()),
        Some(submodule_status) => with_submodule_status(file, submodule_status, colored),
    }
}

/// What the status of a file adds to the rendering of a buffer: the file's
/// five characters, then four for no submodule, or the escape sequence for
/// black and the four characters of the submodule.
pub open spec fn status_line(
    status: Status,
    submodule_status: Option<SubmoduleStatus>,
    colored: bool,
) -> Seq<char> {
    status_columns(status, colored) + match submodule_status {
        None => no_submodule(),
        Some(submodule_status) => submodule_line(submodule_status, colored),
    }
}

/// A buffer with a status written to it renders as before, followed by
/// the status line.
pub proof fn lemma_status_rendered(
    buffer: ColoredText,
    status: Status,
    submodule_status: Option<SubmoduleStatus>,
    colored: bool,
)
    requires
        buffer.wf(),
    ensures
        with_status(buffer, status, submodule_status, colored).wf(),
        with_status(buffer, status, submodule_status, colored).rendered() == buffer.rendered()
            + status_line(status, submodule_status, colored),
{
    let file = buffer.push_str(status_columns(status, colored));
    lemma_push_str_rendered(buffer, status_columns(status, colored));
    match submodule_status {
        None => {
            lemma_push_str_rendered(file, no_submodule());
        },
        Some(submodule_status) => {
            lemma_submodule_status_rendered(file, submodule_status, colored);
        },
    }
}

/// The character of a column that has nothing to show.
pub fn blank_char(colored: bool) -> (ch: char)
    ensures
        ch == blank(colored),
{
    if colored {
        ' '
    } else {
        '.'
    }
}

/// The character of the kind of entry.
fn entry_kind_char(status: Status) -> (ch: char)
    ensures
        ch == entry_kind(status),
{
    if status.intersects(IGNORED) {
        '!'
    } else if status.intersects(WT_NEW) {
        '?'
    } else if status.intersects(CONFLICTED) {
        'u'
    } else if status.intersects(INDEX_RENAMED) || status.intersects(WT_RENAMED) {
        '2'
    } else {
        '1'
    }
}

/// The character of the index column.
fn index_change_char(status: Status, colored: bool) -> (ch: char)
    ensures
        ch == index_change(status, colored),
{
    if status.intersects(INDEX_NEW) {
        '?'
    } else if status.intersects(INDEX_MODIFIED) {
        'M'
    } else if status.intersects(INDEX_DELETED) {
        'D'
    } else if status.intersects(INDEX_RENAMED) {
        'R'
    } else if status.intersects(INDEX_TYPECHANGE) {
        'T'
    } else {
        blank_char(colored)
    }
}

/// The character of the working tree column.
fn worktree_change_char(status: Status, colored: bool) -> (ch: char)
    ensures
        ch == worktree_change(status, colored),
{
    if status.intersects(WT_MODIFIED) {
        'M'
    } else if status.intersects(WT_DELETED) {
        'D'
    } else if status.intersects(WT_TYPECHANGE) {
        'T'
    } else if status.intersects(WT_RENAMED) {
        'R'
    } else {
        blank_char(colored)
    }
}

/// Writes the status of a file to `ret`, and behind it the status of the
/// submodule that the file is, if it is one.
pub fn status_to_string(
    ret: &mut ColoredString,
    status: Status,
    submodule_status: Option<SubmoduleStatus>,
    colored: bool,
)
    requires
        old(ret).wf(),
    ensures
        final(ret).wf(),
        final(ret)@ == with_status(old(ret)@, status, submodule_status, colored),
        final(ret)@.rendered() == old(ret)@.rendered() + status_line(
            status,
            submodule_status,
            colored,
        ),
{
    proof {
        lemma_status_rendered(old(ret)@, status, submodule_status, colored);
    }
    ret.push(entry_kind_char(status));
    ret.push(' ');
    ret.push(index_change_char(status, colored));
    ret.push(worktree_change_char(status, colored));
    ret.push(' ');
    assert(ret@.text =~= old(ret)@.push_str(status_columns(status, colored)).text);
    match submodule_status {
        None => {
            proof {
                reveal_strlit("N...");
                assert("N..."@ =~= no_submodule());
            }
            ret.push_str("N...");
        },
        Some(submodule_status) => submodule_status_to_string(ret, submodule_status, colored),
    }
}

} // verus!
