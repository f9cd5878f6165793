//! The mathematical model of a coloured text: its characters, the places
//! where the foreground colour changes, and the string it renders to.

use vstd::prelude::*;
use crate::color::Color;

verus! {

/// A change of foreground colour: from `offset` on, counted in characters
/// of the plain text, the text is shown in `color`.
pub struct ColorChange {
    pub offset: nat,
    pub color: Color,
}

/// Plain text together with its colour changes, in the order in which they
/// were recorded.
pub struct ColoredText {
    pub text: Seq<char>,
    pub changes: Seq<ColorChange>,
}

impl ColoredText {
    /// No text and no colour change.
    pub open spec fn empty() -> Self {
        ColoredText { text: Seq::empty(), changes: Seq::empty() }
    }

    /// The same colour changes over the text extended by `s`.
    pub open spec fn push_str(self, s: Seq<char>) -> Self {
        ColoredText { text: self.text + s, changes: self.changes }
    }

    /// The same text with one more colour change, placed at its end.
    pub open spec fn set_fg_color(self, color: Color) -> Self {
        ColoredText {
            text: self.text,
            changes: self.changes.push(ColorChange { offset: self.text.len(), color }),
        }
    }

    /// The first `len` characters with the first `count` colour changes.
    pub open spec fn truncated(self, len: int, count: int) -> Self {
        ColoredText { text: self.text.take(len), changes: self.changes.take(count) }
    }

    /// Every change lies within the text, and the changes are ordered by
    /// offset: a change never lies before one recorded earlier.
    pub open spec fn wf(self) -> bool {
        &&& forall|i: int|
            0 <= i < self.changes.len() ==> (#[trigger] self.changes[i]).offset <= self.text.len()
        &&& forall|i: int, j: int|
            0 <= i <= j < self.changes.len() ==> (#[trigger] self.changes[i]).offset <= (
            #[trigger] self.changes[j]).offset
    }

    /// The text with the escape sequence of each colour change inserted at
    /// the change's offset. With no change it is the text itself; otherwise
    /// it is what the text before the last change renders to under the
    /// earlier changes, then the last change's escape sequence, then the
    /// text from the last change on.
    pub open spec fn rendered(self) -> Seq<char>
        decreases self.changes.len(),
    {
        if self.changes.len() == 0 {
            self.text
        } else {
            let last = self.changes.last();
            self.truncated(last.offset as int, self.changes.len() - 1).rendered()
                + last.color.escape_sequence() + self.text.skip(last.offset as int)
        }
    }

    /// The colour changes cut the text into pieces, one more than there
    /// are changes: piece `i` lies in front of change `i`, the last piece
    /// behind the last change. This is where piece `i` starts.
    pub open spec fn piece_start(self, i: int) -> nat {
        if i <= 0 {
            0
        } else {
            self.changes[i - 1].offset
        }
    }

    /// Where piece `i` of the text ends.
    pub open spec fn piece_end(self, i: int) -> nat {
        if i < self.changes.len() {
            self.changes[i].offset
        } else {
            self.text.len()
        }
    }

    /// Piece `i` of the text.
    pub open spec fn piece(self, i: int) -> Seq<char> {
        self.text.subrange(self.piece_start(i) as int, self.piece_end(i) as int)
    }

    /// What is rendered in front of piece `i`: the earlier pieces, each
    /// followed by the escape sequence of the change behind it.
    pub open spec fn rendered_before(self, i: int) -> Seq<char> {
        self.truncated(self.piece_start(i) as int, i).rendered()
    }
}

/// Appended text is rendered verbatim behind everything rendered before.
pub proof fn lemma_push_str_rendered(buffer: ColoredText, s: Seq<char>)
    requires
        buffer.wf(),
    ensures
        buffer.push_str(s).wf(),
        buffer.push_str(s).rendered() == buffer.rendered() + s,
{
    let after = buffer.push_str(s);
    if buffer.changes.len() > 0 {
        let last = buffer.changes.last();
        let count = buffer.changes.len() - 1;
        assert(after.truncated(last.offset as int, count) == buffer.truncated(
            last.offset as int,
            count,
        )) by {
            assert(after.text.take(last.offset as int) =~= buffer.text.take(last.offset as int));
        }
    }
}

/// A new colour change is rendered as its escape sequence behind
/// everything rendered before.
pub proof fn lemma_set_fg_color_rendered(buffer: ColoredText, color: Color)
    requires
        buffer.wf(),
    ensures
        buffer.set_fg_color(color).wf(),
        buffer.set_fg_color(color).rendered() == buffer.rendered() + color.escape_sequence(),
{
    let after = buffer.set_fg_color(color);
    let len = buffer.text.len() as int;
    assert(after.truncated(len, after.changes.len() - 1) == buffer) by {
        assert(buffer.text.take(len) =~= buffer.text);
        assert(after.changes.take(after.changes.len() - 1) =~= buffer.changes);
    }
}

/// The pieces of the text follow one another from its start to its end.
pub proof fn lemma_pieces_in_order(buffer: ColoredText, i: int)
    requires
        buffer.wf(),
        0 <= i <= buffer.changes.len(),
    ensures
        buffer.piece_start(i) <= buffer.piece_end(i) <= buffer.text.len(),
        i < buffer.changes.len() ==> buffer.piece_end(i) == buffer.piece_start(i + 1),
        buffer.piece_start(0) == 0,
        buffer.piece_end(buffer.changes.len() as int) == buffer.text.len(),
{
}

/// Nothing is rendered in front of the first piece.
pub proof fn lemma_rendered_before_first(buffer: ColoredText)
    ensures
        buffer.rendered_before(0) == Seq::<char>::empty(),
{
}

/// In front of the piece behind change `i` stands what stands in front of
/// piece `i`, that piece, and the escape sequence of change `i`.
pub proof fn lemma_rendered_before_next(buffer: ColoredText, i: int)
    requires
        buffer.wf(),
        0 <= i < buffer.changes.len(),
    ensures
        buffer.rendered_before(i + 1) == buffer.rendered_before(i) + buffer.piece(i)
            + buffer.changes[i].color.escape_sequence(),
{
    let start = buffer.piece_start(i) as int;
    let end = buffer.piece_end(i) as int;
    let before = buffer.truncated(start, i);
    let with_piece = buffer.truncated(end, i);
    lemma_push_str_rendered(before, buffer.piece(i));
    assert(before.push_str(buffer.piece(i)) == with_piece) by {
        assert(before.text + buffer.piece(i) =~= with_piece.text);
    }
    lemma_set_fg_color_rendered(with_piece, buffer.changes[i].color);
    assert(with_piece.set_fg_color(buffer.changes[i].color) == buffer.truncated(end, i + 1)) by {
        assert(with_piece.changes.push(buffer.changes[i]) =~= buffer.changes.take(i + 1));
    }
}

/// A rendering ends with the last piece of the text.
pub proof fn lemma_rendered_before_last(buffer: ColoredText)
    requires
        buffer.wf(),
    ensures
        buffer.rendered() == buffer.rendered_before(buffer.changes.len() as int) + buffer.piece(
            buffer.changes.len() as int,
        ),
{
    let count = buffer.changes.len() as int;
    let before = buffer.truncated(buffer.piece_start(count) as int, count);
    lemma_push_str_rendered(before, buffer.piece(count));
    assert(before.push_str(buffer.piece(count)) == buffer) by {
        assert(before.text + buffer.piece(count) =~= buffer.text);
        assert(buffer.changes.take(count) =~= buffer.changes);
    }
}

} // verus!
