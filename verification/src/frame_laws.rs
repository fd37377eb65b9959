//! What is done to a frame, cell by cell, and to texts, character by character.

use crate::compose::{modal_error, modal_rect_of, with_modal};
use crate::frame::{
    cell_index, covers, with_copied_row, with_filled_row, with_overlay, with_text, CellView,
    CursorState, FrameView, Rect,
};
use crate::input::menu_rect;
use crate::screen_laws::{
    cells_are_counted_by_rows, dialog_picture, hides, lemma_dialog_picture, lemma_hides,
    lemma_menu_picture, letter_like, menu_picture, space_like,
};
use crate::state::{HubView, ModalView};
use crate::terminal::{frame_of, framed, ScreenCell};
use crate::text::{clipped, name_le};
use vstd::prelude::*;

verus! {

/// Whether a frame has the size, the links and the cursor of another.
pub open spec fn same_but_cells(frame: FrameView, other: FrameView) -> bool {
    &&& frame.width == other.width
    &&& frame.height == other.height
    &&& frame.cursor == other.cursor
    &&& frame.hyperlinks == other.hyperlinks
    &&& frame.cells.len() == other.cells.len()
}

/// Copying a row copies each of its cells, up to the given width and as far as both frames have
/// them, and no other.
pub proof fn rows_are_copied_cell_by_cell(
    source: FrameView,
    target: FrameView,
    source_y: u16,
    target_y: u16,
    width: u16,
    x: int,
    y: int,
)
    requires
        0 <= x < target.width,
        0 <= y,
        y * target.width + x < target.cells.len(),
    ensures
        same_but_cells(with_copied_row(source, target, source_y, target_y, width), target),
        0 <= y * target.width + x,
        with_copied_row(source, target, source_y, target_y, width).cells[y * target.width + x]
            == if y == target_y && x < width && x < source.width && source_y * source.width + x
            < source.cells.len() {
            source.cells[source_y * source.width + x]
        } else {
            target.cells[y * target.width + x]
        },
{
    assert(0 <= y * target.width && 0 <= source_y * source.width) by (nonlinear_arith)
        requires
            0 <= y,
            0 <= target.width,
            0 <= source_y,
            0 <= source.width,
    ;
    let i = cell_index(target.width, x, y);
    let to = cell_index(target.width, 0, target_y as int);
    if to <= i < to + target.width {
        cells_are_counted_by_rows(target.width, x, y, i - to, target_y as int);
    }
}

/// Emptying a row empties its first cells, and no other; they keep the look of the template.
pub proof fn rows_are_emptied_cell_by_cell(
    frame: FrameView,
    row: u16,
    width: u16,
    template: CellView,
    x: int,
    y: int,
)
    requires
        width <= frame.width,
        0 <= x < frame.width,
        0 <= y,
        y * frame.width + x < frame.cells.len(),
    ensures
        same_but_cells(with_filled_row(frame, row, width, template), frame),
        0 <= y * frame.width + x,
        with_filled_row(frame, row, width, template).cells[y * frame.width + x] == if y == row && x
            < width {
            space_like(template)
        } else {
            frame.cells[y * frame.width + x]
        },
{
    assert(0 <= y * frame.width) by (nonlinear_arith)
        requires
            0 <= y,
            0 <= frame.width,
    ;
    let i = cell_index(frame.width, x, y);
    let to = cell_index(frame.width, 0, row as int);
    if to <= i < to + frame.width {
        cells_are_counted_by_rows(frame.width, x, y, i - to, row as int);
    }
}

/// A text is written into a row character by character, from the given column on and at most as
/// many as there is room for; no other cell changes.
pub proof fn texts_are_written_cell_by_cell(
    frame: FrameView,
    column: u16,
    row: u16,
    width: u16,
    text: Seq<char>,
    template: CellView,
    x: int,
    y: int,
)
    requires
        column + width <= frame.width,
        0 <= x < frame.width,
        0 <= y,
        y * frame.width + x < frame.cells.len(),
    ensures
        same_but_cells(with_text(frame, column, row, width, text, template), frame),
        0 <= y * frame.width + x,
        with_text(frame, column, row, width, text, template).cells[y * frame.width + x] == if y
            == row && column <= x < column + width && x - column < text.len() {
            letter_like(template, text[x - column])
        } else {
            frame.cells[y * frame.width + x]
        },
{
    assert(0 <= y * frame.width) by (nonlinear_arith)
        requires
            0 <= y,
            0 <= frame.width,
    ;
    let i = cell_index(frame.width, x, y);
    let to = cell_index(frame.width, 0, row as int);
    if to <= i < to + frame.width {
        cells_are_counted_by_rows(frame.width, x, y, i - to, row as int);
    }
}

/// What is laid over a frame replaces the cells of its place, as far as it has them, and no other.
pub proof fn overlays_replace_the_cells_of_their_place(
    frame: FrameView,
    overlay: Seq<CellView>,
    rect: Rect,
    index: int,
)
    requires
        0 <= index < frame.cells.len(),
    ensures
        same_but_cells(with_overlay(frame, overlay, rect), frame),
        covers(rect, frame.width, index) == hides(rect, frame.width, index),
        with_overlay(frame, overlay, rect).cells[index] == if hides(rect, frame.width, index)
            && index < overlay.len() {
            overlay[index]
        } else {
            frame.cells[index]
        },
{
    lemma_hides(rect, frame.width, index);
}

/// A dialog is put over any frame: its place shows what is drawn of it, and all else is as it was.
pub proof fn a_dialog_is_put_over_any_frame(frame: FrameView, modal: ModalView, index: int)
    requires
        0 <= index < frame.cells.len(),
    ensures
        ({
            let rect = modal_rect_of(frame.width, frame.height, modal_error(modal) is Some);
            let picture = dialog_picture(modal, rect, frame.width, frame.height);
            &&& with_modal(frame, modal).width == frame.width
            &&& with_modal(frame, modal).height == frame.height
            &&& with_modal(frame, modal).hyperlinks == frame.hyperlinks
            &&& with_modal(frame, modal).cells.len() == frame.cells.len()
            &&& with_modal(frame, modal).cells[index] == if hides(rect, frame.width, index)
                && index < picture.len() {
                framed(picture[index])
            } else {
                frame.cells[index]
            }
        }),
{
    let rect = modal_rect_of(frame.width, frame.height, modal_error(modal) is Some);
    lemma_hides(rect, frame.width, index);
    lemma_dialog_picture(modal, rect, frame.width, frame.height);
}

/// The open menu is put over any frame: its place shows what is drawn of it, and all else is as it
/// was. Without a menu, all is.
pub proof fn a_menu_is_put_over_any_frame(hub: HubView, frame: FrameView, index: int)
    requires
        0 <= index < frame.cells.len(),
    ensures
        same_but_cells(hub.with_menu_over(frame), frame),
        hub.session_menu is None ==> hub.with_menu_over(frame) == frame,
        hub.session_menu matches Some(menu) ==> {
            let rect = menu_rect(menu, hub.cols, hub.rows);
            let picture = menu_picture(menu, rect, frame.width, frame.height);
            hub.with_menu_over(frame).cells[index] == if hides(rect, frame.width, index) && index
                < picture.len() {
                framed(picture[index])
            } else {
                frame.cells[index]
            }
        },
{
    match hub.session_menu {
        Some(menu) => {
            let rect = menu_rect(menu, hub.cols, hub.rows);
            lemma_hides(rect, frame.width, index);
            lemma_menu_picture(menu, rect, frame.width, frame.height);
        },
        None => {},
    }
}

/// A text that is cut keeps its first characters, as many as there is room for.
pub proof fn cutting_keeps_the_first_characters(text: Seq<char>, width: nat, i: int)
    ensures
        clipped(text, width).len() == if text.len() < width {
            text.len()
        } else {
            width
        },
        0 <= i < clipped(text, width).len() ==> clipped(text, width)[i] == text[i],
{
}

/// Of two names the one with the smaller character comes first where they first differ, and a name
/// comes before all that it begins.
pub proof fn names_are_ordered_where_they_differ(left: Seq<char>, right: Seq<char>, k: int)
    requires
        0 <= k <= left.len(),
        k <= right.len(),
        forall|i: int| 0 <= i < k ==> left[i] == right[i],
    ensures
        k == left.len() ==> name_le(left, right),
        k == right.len() && k < left.len() ==> !name_le(left, right),
        k < left.len() && k < right.len() && left[k] != right[k] ==> name_le(left, right) == ((
        left[k] as int) < (right[k] as int)),
    decreases k,
{
    if k > 0 {
        assert(left[0] == right[0]);
        let l = left.drop_first();
        let r = right.drop_first();
        assert forall|i: int| 0 <= i < k - 1 implies l[i] == r[i] by {
            assert(left[i + 1] == right[i + 1]);
        }
        names_are_ordered_where_they_differ(l, r, k - 1);
    }
}

/// What is drawn becomes a frame cell by cell, without links.
pub proof fn drawings_become_frames_cell_by_cell(
    cells: Seq<ScreenCell>,
    width: u16,
    height: u16,
    cursor: Option<CursorState>,
    index: int,
)
    ensures
        frame_of(cells, width, height, cursor).width == width,
        frame_of(cells, width, height, cursor).height == height,
        frame_of(cells, width, height, cursor).cursor == cursor,
        frame_of(cells, width, height, cursor).hyperlinks == Seq::<Seq<char>>::empty(),
        frame_of(cells, width, height, cursor).cells.len() == cells.len(),
        0 <= index < cells.len() ==> frame_of(cells, width, height, cursor).cells[index] == framed(
            cells[index],
        ),
{
}

/// Where a row is counted from its first cell on, past its end too, emptying it, writing into it
/// and copying over it change just the cells that are counted.
pub proof fn rows_are_changed_as_they_are_counted(
    source: FrameView,
    frame: FrameView,
    column: u16,
    row: u16,
    source_y: u16,
    width: u16,
    text: Seq<char>,
    template: CellView,
    x: int,
)
    requires
        0 <= row * frame.width + x < frame.cells.len(),
    ensures
        with_filled_row(frame, row, width, template).cells[row * frame.width + x] == if 0 <= x
            < width {
            space_like(template)
        } else {
            frame.cells[row * frame.width + x]
        },
        with_text(frame, column, row, width, text, template).cells[row * frame.width + x]
            == if column <= x < column + width && x - column < text.len() {
            letter_like(template, text[x - column])
        } else {
            frame.cells[row * frame.width + x]
        },
        with_copied_row(source, frame, source_y, row, width).cells[row * frame.width + x] == if 0
            <= x < width && x < source.width && x < frame.width && source_y * source.width + x
            < source.cells.len() {
            source.cells[source_y * source.width + x]
        } else {
            frame.cells[row * frame.width + x]
        },
{
    assert(cell_index(frame.width, 0, row as int) + x == row * frame.width + x);
}

} // verus!
