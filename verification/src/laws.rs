//! What holds of every coloured text and of every rendering.

use vstd::prelude::*;
use vstd::utf8::encode_utf8;
use crate::color::lemma_escape_sequence_bytes;
use crate::color::Color;
use crate::color::ANSII_ESCAPE_LEN;
use crate::model::lemma_pieces_in_order;
use crate::model::lemma_push_str_rendered;
use crate::model::lemma_rendered_before_last;
use crate::model::lemma_rendered_before_next;
use crate::model::lemma_set_fg_color_rendered;
use crate::model::ColoredText;
use crate::strings::byte_offset;
use crate::strings::lemma_encode_concat;

verus! {

/// One call that changes a buffer: text to append, or a colour to set.
pub enum Edit {
    Text(Seq<char>),
    Foreground(Color),
}

/// The buffer that a sequence of calls builds, starting from an empty one.
pub open spec fn replay(edits: Seq<Edit>) -> ColoredText
    decreases edits.len(),
{
    if edits.len() == 0 {
        ColoredText::empty()
    } else {
        let before = replay(edits.drop_last());
        match edits.last() {
            Edit::Text(s) => before.push_str(s),
            Edit::Foreground(color) => before.set_fg_color(color),
        }
    }
}

/// What each call of a sequence contributes, one after the other: the text
/// as it is, a colour as its escape sequence.
pub open spec fn transcript(edits: Seq<Edit>) -> Seq<char>
    decreases edits.len(),
{
    if edits.len() == 0 {
        Seq::empty()
    } else {
        transcript(edits.drop_last()) + match edits.last() {
            Edit::Text(s) => s,
            Edit::Foreground(color) => color.escape_sequence(),
        }
    }
}

/// The texts of a sequence of calls, one after the other.
pub open spec fn appended_text(edits: Seq<Edit>) -> Seq<char>
    decreases edits.len(),
{
    if edits.len() == 0 {
        Seq::empty()
    } else {
        appended_text(edits.drop_last()) + match edits.last() {
            Edit::Text(s) => s,
            Edit::Foreground(_) => Seq::empty(),
        }
    }
}

/// Whatever calls built a buffer, the buffer is well-formed, its text is
/// what was appended, and it renders to what the calls contribute, in the
/// order of the calls.
pub proof fn lemma_replay_rendered(edits: Seq<Edit>)
    ensures
        replay(edits).wf(),
        replay(edits).text == appended_text(edits),
        replay(edits).rendered() == transcript(edits),
    decreases edits.len(),
{
    if edits.len() > 0 {
        let before = replay(edits.drop_last());
        lemma_replay_rendered(edits.drop_last());
        match edits.last() {
            Edit::Text(s) => {
                lemma_push_str_rendered(before, s);
            },
            Edit::Foreground(color) => {
                lemma_set_fg_color_rendered(before, color);
            },
        }
    }
}

/// Text that is appended without ever setting a colour renders to itself,
/// piece after piece, with no escape sequence added.
pub proof fn lemma_plain_text_renders_verbatim(edits: Seq<Edit>)
    requires
        forall|i: int| 0 <= i < edits.len() ==> (#[trigger] edits[i]) is Text,
    ensures
        replay(edits).changes.len() == 0,
        replay(edits).rendered() == appended_text(edits),
    decreases edits.len(),
{
    if edits.len() > 0 {
        lemma_plain_text_renders_verbatim(edits.drop_last());
    }
}

/// Rendering depends on the buffer alone: two renderings of one buffer are
/// the same string.
pub proof fn lemma_rendering_repeats(buffer: ColoredText, first: Seq<char>, second: Seq<char>)
    requires
        first == buffer.rendered(),
        second == buffer.rendered(),
    ensures
        first == second,
{
}

/// A colour that is set behind `prefix` and followed by `suffix` renders
/// as the prefix, the colour's escape sequence, the suffix.
pub proof fn lemma_single_color_change(prefix: Seq<char>, color: Color, suffix: Seq<char>)
    ensures
        ({
            let buffer = ColoredText::empty().push_str(prefix).set_fg_color(color).push_str(
                suffix,
            );
            &&& buffer.changes.len() == 1
            &&& buffer.changes[0].offset == prefix.len()
            &&& buffer.rendered() == prefix + color.escape_sequence() + suffix
        }),
{
    let start = ColoredText::empty().push_str(prefix);
    lemma_set_fg_color_rendered(start, color);
    lemma_push_str_rendered(start.set_fg_color(color), suffix);
}

/// A rendering has the characters of the text and those of one escape
/// sequence for each colour change.
pub proof fn lemma_rendered_len(buffer: ColoredText)
    requires
        buffer.wf(),
    ensures
        buffer.rendered().len() == buffer.text.len() + ANSII_ESCAPE_LEN * buffer.changes.len(),
    decreases buffer.changes.len(),
{
    if buffer.changes.len() > 0 {
        let last = buffer.changes.last();
        lemma_rendered_len(buffer.truncated(last.offset as int, buffer.changes.len() - 1));
    }
}

/// What is rendered in front of piece `i` of the text stands at the start
/// of the rendering: the text in front of the piece, and one escape
/// sequence for each of the `i` changes in front of it.
pub proof fn lemma_rendered_before_is_prefix(buffer: ColoredText, i: int)
    requires
        buffer.wf(),
        0 <= i <= buffer.changes.len(),
    ensures
        buffer.piece_start(i) + ANSII_ESCAPE_LEN * i <= buffer.rendered().len(),
        buffer.rendered().take(buffer.piece_start(i) + ANSII_ESCAPE_LEN * i)
            == buffer.rendered_before(i),
    decreases buffer.changes.len(),
{
    let count = buffer.changes.len() as int;
    let start = buffer.piece_start(i) as int;
    lemma_rendered_len(buffer);
    if i == count {
        lemma_rendered_before_last(buffer);
    } else if i > 0 {
        let earlier = buffer.truncated(buffer.changes.last().offset as int, count - 1);
        lemma_rendered_before_is_prefix(earlier, i);
        assert(earlier.truncated(start, i) == buffer.truncated(start, i)) by {
            assert(earlier.text.take(start) =~= buffer.text.take(start));
            assert(earlier.changes.take(i) =~= buffer.changes.take(i));
        }
    }
}

/// The text in front of the first colour change is rendered as it is, at
/// the start of the rendering.
pub proof fn lemma_first_piece_rendered(buffer: ColoredText)
    requires
        buffer.wf(),
    ensures
        buffer.rendered().take(buffer.piece_end(0) as int) == buffer.piece(0),
{
    if buffer.changes.len() > 0 {
        lemma_rendered_before_is_prefix(buffer, 1);
        lemma_rendered_before_next(buffer, 0);
    }
}

/// Colour changes are rendered in the order of their offsets, and each
/// applies to the text from its own offset to that of the next change, or
/// to the end. The escape sequence of change `i` stands behind the text in
/// front of the change and the escape sequences of the `i` earlier
/// changes; directly behind it stands the text from the change's offset to
/// the next change, or to the end.
pub proof fn lemma_changes_render_in_offset_order(buffer: ColoredText, i: int)
    requires
        buffer.wf(),
        0 <= i < buffer.changes.len(),
    ensures
        ({
            let offset = buffer.changes[i].offset;
            let next = buffer.piece_end(i + 1);
            &&& offset <= next <= buffer.text.len()
            &&& next + ANSII_ESCAPE_LEN * (i + 1) <= buffer.rendered().len()
            &&& buffer.rendered().subrange(
                offset + ANSII_ESCAPE_LEN * i,
                offset + ANSII_ESCAPE_LEN * (i + 1),
            ) == buffer.changes[i].color.escape_sequence()
            &&& buffer.rendered().subrange(
                offset + ANSII_ESCAPE_LEN * (i + 1),
                next + ANSII_ESCAPE_LEN * (i + 1),
            ) == buffer.text.subrange(offset as int, next as int)
        }),
{
    let rendered = buffer.rendered();
    let escape_start = buffer.changes[i].offset + ANSII_ESCAPE_LEN * i;
    let text_start = buffer.changes[i].offset + ANSII_ESCAPE_LEN * (i + 1);
    let text_end = buffer.piece_end(i + 1) + ANSII_ESCAPE_LEN * (i + 1);
    lemma_pieces_in_order(buffer, i);
    lemma_pieces_in_order(buffer, i + 1);
    lemma_rendered_before_is_prefix(buffer, i);
    lemma_rendered_before_is_prefix(buffer, i + 1);
    lemma_rendered_before_next(buffer, i);
    assert(rendered.subrange(escape_start, text_start) =~= rendered.take(text_start).skip(
        escape_start,
    ));
    if i + 1 < buffer.changes.len() {
        let next_text_start = text_end + ANSII_ESCAPE_LEN;
        lemma_rendered_before_is_prefix(buffer, i + 2);
        lemma_rendered_before_next(buffer, i + 1);
        assert(rendered.subrange(text_start, text_end) =~= rendered.take(
            next_text_start,
        ).subrange(text_start, text_end));
    } else {
        lemma_rendered_before_last(buffer);
    }
}

/// In bytes, a rendering has those of the text and those of one escape
/// sequence for each colour change.
pub proof fn lemma_rendered_byte_len(buffer: ColoredText)
    requires
        buffer.wf(),
    ensures
        encode_utf8(buffer.rendered()).len() == encode_utf8(buffer.text).len() + ANSII_ESCAPE_LEN
            * buffer.changes.len(),
    decreases buffer.changes.len(),
{
    if buffer.changes.len() > 0 {
        let last = buffer.changes.last();
        let offset = last.offset as int;
        let earlier = buffer.truncated(offset, buffer.changes.len() - 1);
        lemma_rendered_byte_len(earlier);
        lemma_escape_sequence_bytes(last.color);
        lemma_encode_concat(earlier.rendered(), last.color.escape_sequence());
        lemma_encode_concat(
            earlier.rendered() + last.color.escape_sequence(),
            buffer.text.skip(offset),
        );
        lemma_encode_concat(buffer.text.take(offset), buffer.text.skip(offset));
        assert(buffer.text.take(offset) + buffer.text.skip(offset) =~= buffer.text);
    }
}

/// Escape sequences stand at the byte offsets of their colour changes: in
/// the UTF-8 encoding of a rendering, the escape sequence of change `i`
/// starts as many bytes in as the text before the change takes, and the
/// `i` escape sequences before it.
pub proof fn lemma_escape_sequence_at_byte_offset(buffer: ColoredText, i: int)
    requires
        buffer.wf(),
        0 <= i < buffer.changes.len(),
    ensures
        ({
            let start = byte_offset(buffer.text, buffer.changes[i].offset as int)
                + ANSII_ESCAPE_LEN * i;
            &&& start + ANSII_ESCAPE_LEN <= encode_utf8(buffer.rendered()).len()
            &&& encode_utf8(buffer.rendered()).subrange(start, start + ANSII_ESCAPE_LEN)
                == encode_utf8(buffer.changes[i].color.escape_sequence())
        }),
{
    let offset = buffer.changes[i].offset as int;
    let escape = buffer.changes[i].color.escape_sequence();
    let rendered = buffer.rendered();
    let front = buffer.rendered_before(i) + buffer.piece(i);
    let behind = rendered.skip(offset + ANSII_ESCAPE_LEN * (i + 1));
    lemma_rendered_before_is_prefix(buffer, i + 1);
    lemma_rendered_before_next(buffer, i);
    assert(rendered =~= front + escape + behind);
    lemma_encode_concat(front, escape);
    lemma_encode_concat(front + escape, behind);
    lemma_escape_sequence_bytes(buffer.changes[i].color);
    assert(encode_utf8(front).len() == byte_offset(buffer.text, offset) + ANSII_ESCAPE_LEN * i) by {
        lemma_rendered_byte_len(buffer.truncated(offset, i + 1));
    }
}

/// Two colours set one after the other, with no text in between, stand at
/// the same offset, and both escape sequences are rendered, the first
/// directly in front of the second.
pub proof fn lemma_colors_at_one_offset(buffer: ColoredText, first: Color, second: Color)
    requires
        buffer.wf(),
    ensures
        ({
            let after = buffer.set_fg_color(first).set_fg_color(second);
            let count = buffer.changes.len() as int;
            &&& after.wf()
            &&& after.changes[count].offset == after.changes[count + 1].offset
            &&& after.rendered() == buffer.rendered() + first.escape_sequence()
                + second.escape_sequence()
        }),
{
    lemma_set_fg_color_rendered(buffer, first);
    lemma_set_fg_color_rendered(buffer.set_fg_color(first), second);
}

} // verus!
