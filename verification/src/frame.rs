//! Screen frames and what the hub does to their cells.

use crate::text::{characters, clipped};
use vstd::prelude::*;

verus! {

/// One cell of a frame.
#[derive(Debug, PartialEq, Eq)]
pub struct CellData {
    /// What the cell shows.
    pub symbol: String,
    /// Packed foreground colour.
    pub fg: u32,
    /// Packed background colour.
    pub bg: u32,
    /// Text attributes as bits.
    pub modifier: u16,
    /// Whether the cell is left out when the screen is updated.
    pub skip: bool,
    /// Index into the frame's links.
    pub hyperlink: Option<u32>,
}

/// What a [`CellData`] says.
pub struct CellView {
    pub symbol: Seq<char>,
    pub fg: u32,
    pub bg: u32,
    pub modifier: u16,
    pub skip: bool,
    pub hyperlink: Option<u32>,
}

impl View for CellData {
    type V = CellView;

    open spec fn view(&self) -> CellView {
        CellView {
            symbol: self.symbol@,
            fg: self.fg,
            bg: self.bg,
            modifier: self.modifier,
            skip: self.skip,
            hyperlink: self.hyperlink,
        }
    }
}

impl Clone for CellData {
    fn clone(&self) -> (copy: CellData)
        ensures
            copy@ == self@,
    {
        CellData {
            symbol: self.symbol.clone(),
            fg: self.fg,
            bg: self.bg,
            modifier: self.modifier,
            skip: self.skip,
            hyperlink: self.hyperlink,
        }
    }
}

/// Where a frame shows its cursor, and how.
#[derive(Debug, Clone, Copy, PartialEq, Eq, Structural)]
pub struct CursorState {
    pub x: u16,
    pub y: u16,
    pub visible: bool,
    pub shape: u8,
}

/// A screen of cells, row after row.
#[derive(Debug, PartialEq, Eq)]
pub struct FrameData {
    pub width: u16,
    pub height: u16,
    pub cells: Vec<CellData>,
    pub cursor: Option<CursorState>,
    pub hyperlinks: Vec<String>,
}

/// What a [`FrameData`] says.
#[verifier::ext_equal]
pub struct FrameView {
    pub width: u16,
    pub height: u16,
    pub cells: Seq<CellView>,
    pub cursor: Option<CursorState>,
    pub hyperlinks: Seq<Seq<char>>,
}

/// What a row of cells says.
pub open spec fn cell_views(cells: Seq<CellData>) -> Seq<CellView> {
    cells.map_values(|cell: CellData| cell@)
}

/// What a list of texts says.
pub open spec fn text_views(texts: Seq<String>) -> Seq<Seq<char>> {
    texts.map_values(|text: String| text@)
}

impl View for FrameData {
    type V = FrameView;

    open spec fn view(&self) -> FrameView {
        FrameView {
            width: self.width,
            height: self.height,
            cells: cell_views(self.cells@),
            cursor: self.cursor,
            hyperlinks: text_views(self.hyperlinks@),
        }
    }
}

/// What a frame that may be missing says.
pub open spec fn frame_view(frame: Option<FrameData>) -> Option<FrameView> {
    match frame {
        Some(frame) => Some(frame@),
        None => None,
    }
}

/// Copies a list of texts.
pub fn cloned_texts(texts: &Vec<String>) -> (copy: Vec<String>)
    ensures
        copy@ == texts@,
{
    let mut copy: Vec<String> = Vec::with_capacity(texts.len());
    let mut at: usize = 0;
    while at < texts.len()
        invariant
            at <= texts.len(),
            copy@ == texts@.take(at as int),
        decreases texts.len() - at,
    {
        copy.push(texts[at].clone());
        at = at + 1;
    }
    assert(texts@.take(at as int) == texts@);
    copy
}

impl Clone for FrameData {
    fn clone(&self) -> (copy: FrameData)
        ensures
            copy@ == self@,
    {
        let mut cells: Vec<CellData> = Vec::with_capacity(self.cells.len());
        let mut at: usize = 0;
        while at < self.cells.len()
            invariant
                at <= self.cells.len(),
                cells.len() == at,
                forall|i: int| 0 <= i < at ==> (#[trigger] cells@[i])@ == self.cells@[i]@,
            decreases self.cells.len() - at,
        {
            cells.push(self.cells[at].clone());
            at = at + 1;
        }
        let hyperlinks = cloned_texts(&self.hyperlinks);
        assert(cell_views(cells@) =~= cell_views(self.cells@));
        FrameData {
            width: self.width,
            height: self.height,
            cells,
            cursor: self.cursor,
            hyperlinks,
        }
    }
}

/// A rectangle of cells.
#[derive(Debug, Clone, Copy, PartialEq, Eq, Structural)]
pub struct Rect {
    pub x: u16,
    pub y: u16,
    pub width: u16,
    pub height: u16,
}

/// `left + right`, or the largest `u16` where that is more.
pub open spec fn sat_add(left: u16, right: u16) -> u16 {
    if left + right > u16::MAX {
        u16::MAX
    } else {
        (left + right) as u16
    }
}

/// `left - right`, or zero where that is less.
pub open spec fn sat_sub(left: u16, right: u16) -> u16 {
    if left < right {
        0
    } else {
        (left - right) as u16
    }
}

/// The smaller of two numbers.
pub open spec fn min16(left: u16, right: u16) -> u16 {
    if left <= right {
        left
    } else {
        right
    }
}

/// The smaller of two numbers.
pub fn lesser(left: u16, right: u16) -> (least: u16)
    ensures
        least == min16(left, right),
{
    if left <= right {
        left
    } else {
        right
    }
}

/// The place of a cell in the list of a frame's cells.
pub open spec fn cell_index(width: u16, x: int, y: int) -> int {
    y * width + x
}

/// The place of a row's first cell is no larger than that of any row in any frame.
pub proof fn lemma_index_fits(width: u16, y: u16)
    ensures
        0 <= y * width <= 65535 * 65535,
{
    assert(0 <= y * width <= 65535 * 65535) by (nonlinear_arith)
        requires
            0 <= y <= 65535,
            0 <= width <= 65535,
    ;
}

/// The template as an empty cell.
pub open spec fn blanked(template: CellView) -> CellView {
    CellView { symbol: seq![' '], hyperlink: None, ..template }
}

/// The template as a cell that shows the given character.
pub open spec fn lettered(template: CellView, ch: char) -> CellView {
    CellView { symbol: seq![ch], hyperlink: None, ..template }
}

/// The frame with the first `width` cells of row `y` emptied, counted from the row's first cell on
/// through the list of cells.
pub open spec fn with_filled_row(
    frame: FrameView,
    y: u16,
    width: u16,
    template: CellView,
) -> FrameView {
    let start = cell_index(frame.width, 0, y as int);
    FrameView {
        cells: Seq::new(
            frame.cells.len(),
            |i: int|
                if start <= i < start + width {
                    blanked(template)
                } else {
                    frame.cells[i]
                },
        ),
        ..frame
    }
}

/// The frame with the given characters in its cells from `start` on.
pub open spec fn with_letters(
    frame: FrameView,
    start: int,
    text: Seq<char>,
    template: CellView,
) -> FrameView {
    FrameView {
        cells: Seq::new(
            frame.cells.len(),
            |i: int|
                if start <= i < start + text.len() {
                    lettered(template, text[i - start])
                } else {
                    frame.cells[i]
                },
        ),
        ..frame
    }
}

/// The frame with a text, cut to `width` characters, written from column `x` of row `y` on.
pub open spec fn with_text(
    frame: FrameView,
    x: u16,
    y: u16,
    width: u16,
    text: Seq<char>,
    template: CellView,
) -> FrameView {
    with_letters(
        frame,
        cell_index(frame.width, x as int, y as int),
        clipped(text, width as nat),
        template,
    )
}

/// How many cells of a row go from one frame to another.
pub open spec fn copied_width(source: FrameView, target: FrameView, width: u16) -> u16 {
    min16(min16(width, source.width), target.width)
}

/// The target with the first cells of its row `target_y` taken from row `source_y` of the source;
/// cells that the source does not have stay as they were.
pub open spec fn with_copied_row(
    source: FrameView,
    target: FrameView,
    source_y: u16,
    target_y: u16,
    width: u16,
) -> FrameView {
    let from = cell_index(source.width, 0, source_y as int);
    let to = cell_index(target.width, 0, target_y as int);
    FrameView {
        cells: Seq::new(
            target.cells.len(),
            |i: int|
                if to <= i < to + copied_width(source, target, width) && from + (i - to)
                    < source.cells.len() {
                    source.cells[from + (i - to)]
                } else {
                    target.cells[i]
                },
        ),
        ..target
    }
}

/// Whether the cell at the given place of the list is one of the rectangle's, in a frame of the
/// given width.
pub open spec fn covers(rect: Rect, width: u16, index: int) -> bool {
    exists|x: int, y: int|
        rect.x <= x < sat_add(rect.x, rect.width) && rect.y <= y < sat_add(rect.y, rect.height)
            && index == #[trigger] cell_index(width, x, y)
}

/// The frame with the rectangle's cells taken from the overlay, as far as the overlay has them.
pub open spec fn with_overlay(frame: FrameView, overlay: Seq<CellView>, rect: Rect) -> FrameView {
    FrameView {
        cells: Seq::new(
            frame.cells.len(),
            |i: int|
                if covers(rect, frame.width, i) && i < overlay.len() {
                    overlay[i]
                } else {
                    frame.cells[i]
                },
        ),
        ..frame
    }
}

/// Empties the first `width` cells of a row; they keep the template's colours.
pub fn fill_frame_row(frame: &mut FrameData, y: u16, width: u16, template: &CellData)
    ensures
        final(frame)@ == with_filled_row(old(frame)@, y, width, template@),
{
    let ghost before = frame@;
    proof {
        lemma_index_fits(frame.width, y);
    }
    let start: usize = y as usize * frame.width as usize;
    let mut x: u16 = 0;
    let ghost goal = with_filled_row(before, y, width, template@);
    while x < width
        invariant
            x <= width,
            start <= 65535 * 65535,
            goal == with_filled_row(before, y, width, template@),
            start == cell_index(before.width, 0, y as int),
            frame@ == (FrameView { cells: frame@.cells, ..before }),
            frame.cells.len() == before.cells.len(),
            forall|i: int|
                0 <= i < frame.cells.len() ==> (#[trigger] frame.cells@[i])@ == if i < start + x {
                    goal.cells[i]
                } else {
                    before.cells[i]
                },
        decreases width - x,
    {
        let index: usize = start + x as usize;
        if index < frame.cells.len() {
            let mut cell = template.clone();
            proof {
                reveal_strlit(" ");
            }
            cell.symbol = " ".to_owned();
            cell.hyperlink = None;
            assert(cell@.symbol == seq![' ']);
            frame.cells.set(index, cell);
        }
        x = x + 1;
    }
    assert(frame@.cells =~= goal.cells);
}

/// Writes a text into a row, from the given column on and at most `width` characters of it.
pub fn write_frame_text(
    frame: &mut FrameData,
    x: u16,
    y: u16,
    width: u16,
    text: &str,
    template: &CellData,
)
    ensures
        final(frame)@ == with_text(old(frame)@, x, y, width, text@, template@),
{
    let ghost before = frame@;
    let chars = characters(text);
    proof {
        lemma_index_fits(frame.width, y);
    }
    let start: usize = y as usize * frame.width as usize + x as usize;
    let mut offset: usize = 0;
    let ghost goal = with_text(before, x, y, width, text@, template@);
    while offset < chars.len() && offset < width as usize
        invariant
            offset <= chars.len(),
            offset <= width,
            chars@ == text@,
            start <= 65535 * 65535 + 65535,
            goal == with_text(before, x, y, width, text@, template@),
            start == cell_index(before.width, x as int, y as int),
            frame@ == (FrameView { cells: frame@.cells, ..before }),
            frame.cells.len() == before.cells.len(),
            forall|i: int|
                0 <= i < frame.cells.len() ==> (#[trigger] frame.cells@[i])@ == if i < start
                    + offset {
                    goal.cells[i]
                } else {
                    before.cells[i]
                },
        decreases chars.len() - offset,
    {
        let index: usize = start + offset;
        if index < frame.cells.len() {
            let mut cell = template.clone();
            let mut symbol = String::new();
            symbol.push(chars[offset]);
            cell.symbol = symbol;
            cell.hyperlink = None;
            assert(cell@.symbol == seq![text@[offset as int]]);
            frame.cells.set(index, cell);
        }
        offset = offset + 1;
    }
    assert(frame@.cells =~= goal.cells);
}

/// Copies the first cells of a row of one frame over those of a row of another.
pub fn copy_frame_row(
    source: &FrameData,
    target: &mut FrameData,
    source_y: u16,
    target_y: u16,
    width: u16,
)
    ensures
        final(target)@ == with_copied_row(source@, old(target)@, source_y, target_y, width),
{
    let ghost before = target@;
    proof {
        lemma_index_fits(source.width, source_y);
        lemma_index_fits(target.width, target_y);
    }
    let from: usize = source_y as usize * source.width as usize;
    let to: usize = target_y as usize * target.width as usize;
    let count: u16 = lesser(lesser(width, source.width), target.width);
    let mut x: u16 = 0;
    let ghost goal = with_copied_row(source@, before, source_y, target_y, width);
    while x < count
        invariant
            x <= count,
            count == copied_width(source@, before, width),
            goal == with_copied_row(source@, before, source_y, target_y, width),
            from == cell_index(source.width, 0, source_y as int),
            to == cell_index(before.width, 0, target_y as int),
            from <= 65535 * 65535,
            to <= 65535 * 65535,
            target@ == (FrameView { cells: target@.cells, ..before }),
            target.cells.len() == before.cells.len(),
            forall|i: int|
                0 <= i < target.cells.len() ==> (#[trigger] target.cells@[i])@ == if i < to + x {
                    goal.cells[i]
                } else {
                    before.cells[i]
                },
        decreases count - x,
    {
        let source_index: usize = from + x as usize;
        let target_index: usize = to + x as usize;
        if source_index < source.cells.len() && target_index < target.cells.len() {
            let cell = source.cells[source_index].clone();
            target.cells.set(target_index, cell);
        }
        x = x + 1;
    }
    assert(target@.cells =~= goal.cells);
}

/// Whether the cell at the given place of the list is one of the rectangle's, above row `bottom`
/// or left of column `right` in it.
spec fn covers_before(rect: Rect, width: u16, index: int, right: int, bottom: int) -> bool {
    exists|x: int, y: int|
        rect.x <= x < sat_add(rect.x, rect.width) && rect.y <= y < sat_add(rect.y, rect.height) && (
        y < bottom || y == bottom && x < right) && index == #[trigger] cell_index(width, x, y)
}

/// Takes the rectangle's cells from the overlay, as far as the overlay has them.
pub fn lay_over(frame: &mut FrameData, overlay: &FrameData, rect: Rect)
    ensures
        final(frame)@ == with_overlay(old(frame)@, overlay@.cells, rect),
{
    let ghost before = frame@;
    let right: u16 = rect.x.saturating_add(rect.width);
    let bottom: u16 = rect.y.saturating_add(rect.height);
    let mut y: u16 = rect.y;
    while y < bottom
        invariant
            rect.y <= y <= bottom,
            right == sat_add(rect.x, rect.width),
            bottom == sat_add(rect.y, rect.height),
            frame@ == (FrameView { cells: frame@.cells, ..before }),
            frame.cells.len() == before.cells.len(),
            forall|i: int|
                0 <= i < frame.cells.len() ==> (#[trigger] frame.cells@[i])@ == if covers_before(
                    rect,
                    before.width,
                    i,
                    rect.x as int,
                    y as int,
                ) && i < overlay.cells.len() {
                    overlay@.cells[i]
                } else {
                    before.cells[i]
                },
        decreases bottom - y,
    {
        proof {
            lemma_index_fits(frame.width, y);
        }
        let start: usize = y as usize * frame.width as usize;
        let mut x: u16 = rect.x;
        while x < right
            invariant
                rect.x <= x <= right,
                rect.y <= y < bottom,
                right == sat_add(rect.x, rect.width),
                bottom == sat_add(rect.y, rect.height),
                start == cell_index(before.width, 0, y as int),
                start <= 65535 * 65535,
                frame@ == (FrameView { cells: frame@.cells, ..before }),
                frame.cells.len() == before.cells.len(),
                forall|i: int|
                    0 <= i < frame.cells.len() ==> (#[trigger] frame.cells@[i])@
                        == if covers_before(rect, before.width, i, x as int, y as int) && i
                        < overlay.cells.len() {
                        overlay@.cells[i]
                    } else {
                        before.cells[i]
                    },
            decreases right - x,
        {
            let index: usize = start + x as usize;
            proof {
                assert(index == cell_index(before.width, x as int, y as int));
                assert forall|i: int|
                    covers_before(rect, before.width, i, x + 1, y as int) == (covers_before(
                        rect,
                        before.width,
                        i,
                        x as int,
                        y as int,
                    ) || i == index) by {
                    if covers_before(rect, before.width, i, x + 1, y as int) && i != index {
                        let (cx, cy): (int, int) = choose|cx: int, cy: int|
                            rect.x <= cx < sat_add(rect.x, rect.width) && rect.y <= cy < sat_add(
                                rect.y,
                                rect.height,
                            ) && (cy < y || cy == y && cx < x + 1) && i == #[trigger] cell_index(
                                before.width,
                                cx,
                                cy,
                            );
                        assert(cy < y || cy == y && cx < x);
                    }
                }
            }
            if index < overlay.cells.len() && index < frame.cells.len() {
                let cell = overlay.cells[index].clone();
                frame.cells.set(index, cell);
            }
            x = x + 1;
        }
        proof {
            assert forall|i: int|
                covers_before(rect, before.width, i, rect.x as int, y + 1) == covers_before(
                    rect,
                    before.width,
                    i,
                    x as int,
                    y as int,
                ) by {
                if covers_before(rect, before.width, i, rect.x as int, y + 1) {
                    let (cx, cy): (int, int) = choose|cx: int, cy: int|
                        rect.x <= cx < sat_add(rect.x, rect.width) && rect.y <= cy < sat_add(
                            rect.y,
                            rect.height,
                        ) && (cy < y + 1 || cy == y + 1 && cx < rect.x) && i
                            == #[trigger] cell_index(before.width, cx, cy);
                    assert(cy < y || cy == y && cx < x);
                }
            }
        }
        y = y + 1;
    }
    proof {
        let goal = with_overlay(before, overlay@.cells, rect);
        assert forall|i: int|
            covers(rect, before.width, i) == covers_before(
                rect,
                before.width,
                i,
                rect.x as int,
                y as int,
            ) by {
            if covers(rect, before.width, i) {
                let (cx, cy): (int, int) = choose|cx: int, cy: int|
                    rect.x <= cx < sat_add(rect.x, rect.width) && rect.y <= cy < sat_add(
                        rect.y,
                        rect.height,
                    ) && i == #[trigger] cell_index(before.width, cx, cy);
                assert(cy < y);
            }
        }
        assert(frame@.cells =~= goal.cells);
    }
}

} // verus!
