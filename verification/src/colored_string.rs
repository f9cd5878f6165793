//! A text buffer that remembers where the foreground colour changes.

use vstd::prelude::*;
use vstd::string::*;
use crate::color::ansii_escape_str;
use crate::color::ANSII_ESCAPE_LEN;
use crate::model::lemma_pieces_in_order;
use crate::model::lemma_push_str_rendered;
use crate::model::lemma_rendered_before_first;
use crate::model::lemma_rendered_before_last;
use crate::model::lemma_rendered_before_next;
use crate::model::lemma_set_fg_color_rendered;
use crate::model::ColorChange;
use crate::model::ColoredText;
use crate::strings::byte_len;
use crate::strings::byte_offset;
use crate::strings::lemma_byte_offset_end;
use crate::strings::lemma_byte_offset_step;
use crate::strings::split_chars;
use crate::strings::string_with_room;

pub use crate::color::Color;

verus! {

/// The place in the buffer at which a colour starts: `index` is the byte
/// offset into the text, `position` the same place counted in characters.
struct ColorMarker {
    index: usize,
    fg: Color,
    position: Ghost<nat>,
}

/// Plain text that is built up piece by piece, with a record of the places
/// at which the foreground colour changes.
pub struct ColoredString {
    raw: String,
    color_markers: Vec<ColorMarker>,
}

impl View for ColoredString {
    type V = ColoredText;

    closed spec fn view(&self) -> ColoredText {
        ColoredText {
            text: self.raw@,
            changes: Seq::new(
                self.color_markers.len() as nat,
                |i: int|
                    ColorChange {
                        offset: self.color_markers[i].position@,
                        color: self.color_markers[i].fg,
                    },
            ),
        }
    }
}

impl ColoredString {
    /// Every marker's byte offset is that of the character it stands at.
    pub closed spec fn markers_on_characters(&self) -> bool {
        forall|i: int|
            0 <= i < self.color_markers.len() ==> (#[trigger] self.color_markers[i]).index
                == byte_offset(self.raw@, self.color_markers[i].position@ as int)
    }

    /// The buffer's invariant: its colour changes lie within the text in
    /// non-decreasing order, and the recorded byte offsets agree with them.
    pub open spec fn wf(&self) -> bool {
        &&& self@.wf()
        &&& self.markers_on_characters()
    }

    /// An empty buffer.
    pub fn new() -> (ret: ColoredString)
        ensures
            ret.wf(),
            ret@ == ColoredText::empty(),
    {
        let ret = ColoredString { raw: String::new(), color_markers: Vec::new() };
        assert(ret@.changes =~= Seq::<ColorChange>::empty());
        ret
    }

    /// An empty buffer with room for `capacity` bytes of text, as far as
    /// the machine provides it.
    pub fn with_capacity(capacity: usize) -> (ret: ColoredString)
        ensures
            ret.wf(),
            ret@ == ColoredText::empty(),
    {
        let ret = ColoredString { raw: string_with_room(capacity), color_markers: Vec::new() };
        assert(ret@.changes =~= Seq::<ColorChange>::empty());
        ret
    }

    /// Shows the text appended from now on in `fg`.
    pub fn set_fg_color(&mut self, fg: Color)
        requires
            old(self).wf(),
        ensures
            final(self).wf(),
            final(self)@ == old(self)@.set_fg_color(fg),
            final(self)@.rendered() == old(self)@.rendered() + fg.escape_sequence(),
    {
        let color_marker = ColorMarker {
            index: byte_len(self.raw.as_str()),
            fg,
            position: Ghost(self.raw@.len()),
        };
        self.color_markers.push(color_marker);
        proof {
            lemma_byte_offset_end(self.raw@);
            lemma_set_fg_color_rendered(old(self)@, fg);
            assert(self@.changes =~= old(self)@.set_fg_color(fg).changes);
        }
    }

    /// Appends one character to the text.
    #[inline]
    pub fn push(&mut self, ch: char)
        requires
            old(self).wf(),
        ensures
            final(self).wf(),
            final(self)@ == old(self)@.push_str(seq![ch]),
            final(self)@.rendered() == old(self)@.rendered().push(ch),
    {
        self.raw.push(ch);
        proof {
            assert(self.raw@ =~= old(self).raw@ + seq![ch]);
            self.lemma_text_extended(*old(self), seq![ch]);
            assert(old(self)@.rendered() + seq![ch] =~= old(self)@.rendered().push(ch));
        }
    }

    /// Appends a string to the text.
    #[inline]
    pub fn push_str(&mut self, string: &str)
        requires
            old(self).wf(),
        ensures
            final(self).wf(),
            final(self)@ == old(self)@.push_str(string@),
            final(self)@.rendered() == old(self)@.rendered() + string@,
    {
        self.raw.append(string);
        proof {
            self.lemma_text_extended(*old(self), string@);
        }
    }

    /// A buffer that differs from a well-formed one only by more text at
    /// the end is well-formed and has the same colour changes.
    proof fn lemma_text_extended(&self, before: ColoredString, s: Seq<char>)
        requires
            before.wf(),
            self.raw@ == before.raw@ + s,
            self.color_markers == before.color_markers,
        ensures
            self.wf(),
            self@ == before@.push_str(s),
            self@.rendered() == before@.rendered() + s,
    {
        lemma_push_str_rendered(before@, s);
        assert forall|i: int| 0 <= i < self.color_markers.len() implies (
        #[trigger] self.color_markers[i]).index == byte_offset(
            self.raw@,
            self.color_markers[i].position@ as int,
        ) by {
            let position = before@.changes[i].offset as int;
            assert(self.raw@.take(position) =~= before.raw@.take(position));
        }
    }

    /// The text with the escape sequence of every colour change inserted
    /// where the change was recorded.
    pub fn colored(&self) -> (ret: String)
        requires
            self.wf(),
        ensures
            ret@ == self@.rendered(),
    {
        let text: &str = self.raw.as_str();
        let count: usize = self.color_markers.len();
        let mut ret = string_with_room(rendered_capacity(byte_len(text), count));
        let mut rest: &str = text;
        let mut index: usize = 0;
        let mut i: usize = 0;
        proof {
            lemma_rendered_before_first(self@);
        }
        while i < count
            invariant
                self.wf(),
                count == self.color_markers.len(),
                i <= count,
                rest@ == self.raw@.skip(self@.piece_start(i as int) as int),
                index == byte_offset(self.raw@, self@.piece_start(i as int) as int),
                ret@ == self@.rendered_before(i as int),
            decreases count - i,
        {
            let color_marker = &self.color_markers[i];
            let ghost start = self@.piece_start(i as int) as int;
            let ghost end = self@.piece_end(i as int) as int;
            proof {
                lemma_pieces_in_order(self@, i as int);
                lemma_byte_offset_step(self.raw@, start, end);
                assert(rest@.take(end - start) =~= self@.piece(i as int));
                lemma_rendered_before_next(self@, i as int);
            }
            let (piece, tail) = split_chars(rest, color_marker.index - index, Ghost(end - start));
            ret.append(piece);
            let escape = ansii_escape_str(color_marker.fg);
            ret.append(escape.as_str());
            rest = tail;
            index = color_marker.index;
            i += 1;
        }
        proof {
            lemma_rendered_before_last(self@);
        }
        ret.append(rest);
        ret
    }
}

/// The room that rendering takes: the text's bytes and one escape sequence
/// for each colour change and one to spare, or the largest `usize` if the
/// sum does not fit.
fn rendered_capacity(text_bytes: usize, changes: usize) -> (capacity: usize)
    ensures
        capacity == if text_bytes + (changes + 1) * ANSII_ESCAPE_LEN <= usize::MAX {
            text_bytes + (changes + 1) * ANSII_ESCAPE_LEN
        } else {
            usize::MAX as int
        },
{
    if changes < usize::MAX / ANSII_ESCAPE_LEN {
        text_bytes.saturating_add((changes + 1) * ANSII_ESCAPE_LEN)
    } else {
        usize::MAX
    }
}

} // verus!
