//! The status of a submodule and the four characters that show it.

use vstd::prelude::*;
use crate::colored_string::Color;
use crate::colored_string::ColoredString;
use crate::model::lemma_push_str_rendered;
use crate::model::lemma_set_fg_color_rendered;
use crate::model::ColoredText;
use crate::status::blank;
use crate::status::blank_char;

verus! {

/// The superproject's head holds the submodule.
pub const IN_HEAD: u32 = 0x0001;

/// The superproject's index holds the submodule.
pub const IN_INDEX: u32 = 0x0002;

/// The superproject's configuration names the submodule.
pub const IN_CONFIG: u32 = 0x0004;

/// The superproject's working directory holds the submodule.
pub const IN_WD: u32 = 0x0008;

/// In the index, not in the head.
pub const INDEX_ADDED: u32 = 0x0010;

/// In the head, not in the index.
pub const INDEX_DELETED: u32 = 0x0020;

/// Index and head do not match.
pub const INDEX_MODIFIED: u32 = 0x0040;

/// The working directory holds an empty directory.
pub const WD_UNINITIALIZED: u32 = 0x0080;

/// In the working directory, not in the index.
pub const WD_ADDED: u32 = 0x0100;

/// In the index, not in the working directory.
pub const WD_DELETED: u32 = 0x0200;

/// Index and the working directory's head do not match.
pub const WD_MODIFIED: u32 = 0x0400;

/// The submodule's own index is dirty.
pub const WD_INDEX_MODIFIED: u32 = 0x0800;

/// The submodule's working directory has modified files.
pub const WD_WD_MODIFIED: u32 = 0x1000;

/// The submodule's working directory has untracked files.
pub const WD_UNTRACKED: u32 = 0x2000;

/// The flags that describe a submodule, one bit each.
#[derive(Clone, Copy, Debug, PartialEq, Eq, Structural)]
pub struct SubmoduleStatus {
    pub bits: u32,
}

impl SubmoduleStatus {
    /// Whether one of `flags` is set.
    pub open spec fn has(self, flags: u32) -> bool {
        self.bits & flags != 0
    }

    /// Whether one of `flags` is set.
    pub fn intersects(&self, flags: u32) -> (ret: bool)
        ensures
            ret == self.has(flags),
    {
        self.bits & flags != 0
    }
}

/// Where the submodule is known: in the head, else in the index, else in
/// the configuration, else in the working directory.
pub open spec fn source(status: SubmoduleStatus, colored: bool) -> char {
    if status.has(IN_HEAD) {
        'H'
    } else if status.has(IN_INDEX) {
        'I'
    } else if status.has(IN_CONFIG) {
        'C'
    } else if status.has(IN_WD) {
        'W'
    } else {
        blank(colored)
    }
}

/// How the submodule differs between head and index.
pub open spec fn index_change(status: SubmoduleStatus) -> char {
    if status.has(INDEX_ADDED) {
        'A'
    } else if status.has(INDEX_DELETED) {
        'D'
    } else if status.has(INDEX_MODIFIED) {
        'M'
    } else {
        '.'
    }
}

/// How the submodule differs between index and working directory.
pub open spec fn worktree_change(status: SubmoduleStatus, colored: bool) -> char {
    if status.has(WD_UNINITIALIZED) {
        'U'
    } else if status.has(WD_ADDED) {
        'A'
    } else if status.has(WD_DELETED) {
        'D'
    } else if status.has(WD_MODIFIED) {
        'M'
    } else if status.has(WD_WD_MODIFIED) {
        'W'
    } else if status.has(WD_UNTRACKED) {
        'U'
    } else {
        blank(colored)
    }
}

/// The four characters of a submodule: `S` and its three columns.
pub open spec fn submodule_columns(status: SubmoduleStatus, colored: bool) -> Seq<char> {
    seq!['S', source(status, colored), index_change(status), worktree_change(status, colored)]
}

/// A buffer after the status of a submodule has been written to it: the
/// colour turns to black, then come the four characters.
pub open spec fn with_submodule_status(
    buffer: ColoredText,
    status: SubmoduleStatus,
    colored: bool,
) -> ColoredText {
    buffer.set_fg_color(Color::BLACK).push_str(submodule_columns(status, colored))
}

/// What the status of a submodule adds to the rendering of a buffer: the
/// escape sequence for black, then the four characters.
pub open spec fn submodule_line(status: SubmoduleStatus, colored: bool) -> Seq<char> {
    Color::BLACK.escape_sequence() + submodule_columns(status, colored)
}

/// A buffer with the status of a submodule written to it renders as
/// before, followed by the submodule's line.
pub proof fn lemma_submodule_status_rendered(
    buffer: ColoredText,
    status: SubmoduleStatus,
    colored: bool,
)
    requires
        buffer.wf(),
    ensures
        with_submodule_status(buffer, status, colored).wf(),
        with_submodule_status(buffer, status, colored).rendered() == buffer.rendered()
            + submodule_line(status, colored),
{
    lemma_set_fg_color_rendered(buffer, Color::BLACK);
    lemma_push_str_rendered(
        buffer.set_fg_color(Color::BLACK),
        submodule_columns(status, colored),
    );
}

/// The character of the place where the submodule is known.
fn source_char(status: SubmoduleStatus, colored: bool) -> (ch: char)
    ensures
        ch == source(status, colored),
{
    if status.intersects(IN_HEAD) {
        'H'
    } else if status.intersects(IN_INDEX) {
        'I'
    } else if status.intersects(IN_CONFIG) {
        'C'
    } else if status.intersects(IN_WD) {
        'W'
    } else {
        blank_char(colored)
    }
}

/// The character of the index column.
fn index_change_char(status: SubmoduleStatus) -> (ch: char)
    ensures
        ch == index_change(status),
{
    if status.intersects(INDEX_ADDED) {
        'A'
    } else if status.intersects(INDEX_DELETED) {
        'D'
    } else if status.intersects(INDEX_MODIFIED) {
        'M'
    } else {
        '.'
    }
}

/// The character of the working directory column.
fn worktree_change_char(status: SubmoduleStatus, colored: bool) -> (ch: char)
    ensures
        ch == worktree_change(status, colored),
{
    if status.intersects(WD_UNINITIALIZED) {
        'U'
    } else if status.intersects(WD_ADDED) {
        'A'
    } else if status.intersects(WD_DELETED) {
        'D'
    } else if status.intersects(WD_MODIFIED) {
        'M'
    } else if status.intersects(WD_WD_MODIFIED) {
        'W'
    } else if status.intersects(WD_UNTRACKED) {
        'U'
    } else {
        blank_char(colored)
    }
}

/// Writes the status of a submodule to `ret`, in black.
pub fn submodule_status_to_string(
    ret: &mut ColoredString,
    submodule_status: SubmoduleStatus,
    colored: bool,
)
    requires
        old(ret).wf(),
    ensures
        final(ret).wf(),
        final(ret)@ == with_submodule_status(old(ret)@, submodule_status, colored),
        final(ret)@.rendered() == old(ret)@.rendered() + submodule_line(submodule_status, colored),
{
    proof {
        lemma_submodule_status_rendered(old(ret)@, submodule_status, colored);
    }
    ret.set_fg_color(Color::BLACK);
    ret.push('S');
    ret.push(source_char(submodule_status, colored));
    ret.push(index_change_char(submodule_status));
    ret.push(worktree_change_char(submodule_status, colored));
    assert(ret@.text =~= with_submodule_status(old(ret)@, submodule_status, colored).text);
}

} // verus!
