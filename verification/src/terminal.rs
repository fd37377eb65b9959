//! Drawing with ratatui, and the frames that its buffers become.
//!
//! Everything that this module calls outside the crate only computes: a buffer is a grid of cells
//! in memory, and the widgets write into it.

use crate::frame::{
    cell_views, lay_over, with_overlay, CellData, CellView, CursorState, FrameData, FrameView,
    Rect,
};
use ratatui::buffer::Buffer;
use ratatui::style::Color::{
    Black, Blue, Cyan, DarkGray, Gray, Green, Indexed, LightBlue, LightCyan, LightGreen,
    LightMagenta, LightRed, LightYellow, Magenta, Red, Reset, Rgb, White, Yellow,
};
use ratatui::style::Style;
use ratatui::widgets::{Block, Borders, Paragraph, Widget};
use vstd::prelude::*;

verus! {

/// A colour of a terminal cell.
#[derive(Debug, Clone, Copy, PartialEq, Eq, Structural)]
pub enum Color {
    Reset,
    Black,
    Red,
    Green,
    Yellow,
    Blue,
    Magenta,
    Cyan,
    Gray,
    DarkGray,
    LightRed,
    LightGreen,
    LightYellow,
    LightBlue,
    LightMagenta,
    LightCyan,
    White,
    Rgb(u8, u8, u8),
    Indexed(u8),
}

/// A colour that the hub draws with.
#[derive(Debug, Clone, Copy, PartialEq, Eq, Structural)]
pub enum Ink {
    Black,
    Cyan,
    DarkGray,
    Red,
    White,
}

/// What a cell of a ratatui buffer holds.
pub struct ScreenCell {
    pub symbol: Seq<char>,
    pub fg: Color,
    pub bg: Color,
    pub modifier: u16,
    pub skip: bool,
}

/// ratatui's grid of cells.
#[verifier::external_type_specification]
#[verifier::external_body]
pub struct ExBuffer(Buffer);

/// The cells of a buffer, row after row.
pub uninterp spec fn buffer_cells(buffer: Buffer) -> Seq<ScreenCell>;

/// The part of the screen that a buffer stands for.
pub uninterp spec fn buffer_area(buffer: Buffer) -> Rect;

/// The cells after `Block::render` with borders on all sides and the given title.
pub uninterp spec fn block_cells(
    cells: Seq<ScreenCell>,
    canvas: Rect,
    area: Rect,
    title: Seq<char>,
    border: Ink,
    fg: Ink,
    bg: Ink,
) -> Seq<ScreenCell>;

/// The cells after `Paragraph::render` of the given text.
pub uninterp spec fn paragraph_cells(
    cells: Seq<ScreenCell>,
    canvas: Rect,
    area: Rect,
    text: Seq<char>,
    fg: Ink,
    bg: Ink,
) -> Seq<ScreenCell>;

/// A rectangle of the given size in the corner of the screen.
pub open spec fn screen(width: u16, height: u16) -> Rect {
    Rect { x: 0, y: 0, width, height }
}

/// Whether a buffer starts in the corner of the screen and holds a cell for each place of its area.
pub open spec fn is_canvas(buffer: Buffer) -> bool {
    &&& buffer_area(buffer).x == 0
    &&& buffer_area(buffer).y == 0
    &&& buffer_cells(buffer).len() == buffer_area(buffer).width * buffer_area(buffer).height
}

/// A cell on which nothing was drawn.
pub open spec fn empty_cell() -> ScreenCell {
    ScreenCell {
        symbol: seq![' '],
        fg: Color::Reset,
        bg: Color::Reset,
        modifier: 0,
        skip: false,
    }
}

/// The cells of a screen on which nothing was drawn.
pub open spec fn empty_cells(width: u16, height: u16) -> Seq<ScreenCell> {
    Seq::new((width * height) as nat, |i: int| empty_cell())
}

/// `Buffer::empty` over the screen of the given size: a grid of as many cells as the size says,
/// each of them a space in the default colours.
#[verifier::external_body]
pub(crate) fn empty_buffer(width: u16, height: u16) -> (buffer: Buffer)
    ensures
        buffer_area(buffer) == screen(width, height),
        buffer_cells(buffer) == empty_cells(width, height),
{
    Buffer::empty(ratatui::layout::Rect::new(0, 0, width, height))
}

/// `Buffer::area`: the size of the buffer's area.
#[verifier::external_body]
fn buffer_size(buffer: &Buffer) -> (size: (u16, u16))
    ensures
        size.0 == buffer_area(*buffer).width,
        size.1 == buffer_area(*buffer).height,
{
    let area = buffer.area();
    (area.width, area.height)
}

/// `Buffer::content`: how many cells the buffer holds.
#[verifier::external_body]
fn buffer_len(buffer: &Buffer) -> (len: usize)
    ensures
        len == buffer_cells(*buffer).len(),
{
    buffer.content().len()
}

/// `Cell::symbol` of one cell of the buffer, with the cell's text attributes as bits and its flag
/// to be left out of updates.
#[verifier::external_body]
#[allow(deprecated)]
fn cell_text(buffer: &Buffer, index: usize) -> (text: (String, u16, bool))
    requires
        index < buffer_cells(*buffer).len(),
    ensures
        text.0@ == buffer_cells(*buffer)[index as int].symbol,
        text.1 == buffer_cells(*buffer)[index as int].modifier,
        text.2 == buffer_cells(*buffer)[index as int].skip,
{
    let cell = &buffer.content()[index];
    (cell.symbol().to_owned(), cell.modifier.bits(), cell.skip)
}

/// The foreground and background colours (`Cell::fg` and `Cell::bg`) of one cell of the buffer.
#[verifier::external_body]
fn cell_colors(buffer: &Buffer, index: usize) -> (colors: (Color, Color))
    requires
        index < buffer_cells(*buffer).len(),
    ensures
        colors.0 == buffer_cells(*buffer)[index as int].fg,
        colors.1 == buffer_cells(*buffer)[index as int].bg,
{
    let plain = |color| match color {
        Reset => Color::Reset, Black => Color::Black, Red => Color::Red,
        Green => Color::Green, Yellow => Color::Yellow, Blue => Color::Blue,
        Magenta => Color::Magenta, Cyan => Color::Cyan, Gray => Color::Gray,
        DarkGray => Color::DarkGray, LightRed => Color::LightRed,
        LightGreen => Color::LightGreen, LightYellow => Color::LightYellow,
        LightBlue => Color::LightBlue, LightMagenta => Color::LightMagenta,
        LightCyan => Color::LightCyan, White => Color::White,
        Rgb(r, g, b) => Color::Rgb(r, g, b), Indexed(i) => Color::Indexed(i),
    };
    let cell = &buffer.content()[index];
    (plain(cell.fg), plain(cell.bg))
}

/// `Block::render` of a block with borders on all sides and a title, which may be empty. What it
/// draws is a function of the cells, the buffer's area and what the block is made of; the buffer
/// keeps its area.
#[verifier::external_body]
pub(crate) fn draw_block(
    buffer: &mut Buffer,
    area: Rect,
    title: &str,
    border: Ink,
    fg: Ink,
    bg: Ink,
)
    requires
        is_canvas(*old(buffer)),
    ensures
        buffer_area(*final(buffer)) == buffer_area(*old(buffer)),
        is_canvas(*final(buffer)),
        buffer_cells(*final(buffer)) == block_cells(
            buffer_cells(*old(buffer)),
            buffer_area(*old(buffer)),
            area,
            title@,
            border,
            fg,
            bg,
        ),
{
    let ink = |ink| match ink {
        Ink::Black => Black, Ink::Cyan => Cyan, Ink::DarkGray => DarkGray,
        Ink::Red => Red, Ink::White => White,
    };
    Block::default()
        .title(title)
        .borders(Borders::ALL)
        .border_style(Style::default().fg(ink(border)))
        .style(Style::default().fg(ink(fg)).bg(ink(bg)))
        .render(ratatui::layout::Rect::new(area.x, area.y, area.width, area.height), buffer);
}

/// `Paragraph::render` of a text. What it draws is a function of the cells, the buffer's area, the
/// text and its colours; the buffer keeps its area. It adds the width of a line and that of its
/// next character in sixteen bits, so the area is at most half as wide as they can count.
#[verifier::external_body]
pub(crate) fn draw_paragraph(buffer: &mut Buffer, area: Rect, text: &str, fg: Ink, bg: Ink)
    requires
        is_canvas(*old(buffer)),
        area.width <= 0x7fff,
    ensures
        buffer_area(*final(buffer)) == buffer_area(*old(buffer)),
        is_canvas(*final(buffer)),
        buffer_cells(*final(buffer)) == paragraph_cells(
            buffer_cells(*old(buffer)),
            buffer_area(*old(buffer)),
            area,
            text@,
            fg,
            bg,
        ),
{
    let ink = |ink| match ink {
        Ink::Black => Black, Ink::Cyan => Cyan, Ink::DarkGray => DarkGray,
        Ink::Red => Red, Ink::White => White,
    };
    Paragraph::new(text)
        .style(Style::default().fg(ink(fg)).bg(ink(bg)))
        .render(ratatui::layout::Rect::new(area.x, area.y, area.width, area.height), buffer);
}

/// The number that a colour goes by in a frame: zero for the terminal's default, one to sixteen
/// for the named colours, and for the others a mark in the top byte and the colour below it.
pub open spec fn packed(color: Color) -> u32 {
    match color {
        Color::Reset => 0,
        Color::Black => 1,
        Color::Red => 2,
        Color::Green => 3,
        Color::Yellow => 4,
        Color::Blue => 5,
        Color::Magenta => 6,
        Color::Cyan => 7,
        Color::Gray => 8,
        Color::DarkGray => 9,
        Color::LightRed => 10,
        Color::LightGreen => 11,
        Color::LightYellow => 12,
        Color::LightBlue => 13,
        Color::LightMagenta => 14,
        Color::LightCyan => 15,
        Color::White => 16,
        Color::Indexed(index) => (0x0100_0000 + index) as u32,
        Color::Rgb(r, g, b) => (0x0200_0000 + r * 0x1_0000 + g * 0x100 + b) as u32,
    }
}

/// Packs a colour into the number that it goes by in a frame.
pub fn pack_color(color: Color) -> (code: u32)
    ensures
        code == packed(color),
{
    match color {
        Color::Reset => 0,
        Color::Black => 1,
        Color::Red => 2,
        Color::Green => 3,
        Color::Yellow => 4,
        Color::Blue => 5,
        Color::Magenta => 6,
        Color::Cyan => 7,
        Color::Gray => 8,
        Color::DarkGray => 9,
        Color::LightRed => 10,
        Color::LightGreen => 11,
        Color::LightYellow => 12,
        Color::LightBlue => 13,
        Color::LightMagenta => 14,
        Color::LightCyan => 15,
        Color::White => 16,
        Color::Indexed(index) => 0x0100_0000 + index as u32,
        Color::Rgb(r, g, b) => 0x0200_0000 + r as u32 * 0x1_0000 + g as u32 * 0x100 + b as u32,
    }
}

/// No two colours are packed into the same number.
pub proof fn packing_keeps_colors_apart(left: Color, right: Color)
    requires
        packed(left) == packed(right),
    ensures
        left == right,
{
}

/// A screen cell as a frame holds it.
pub open spec fn framed(cell: ScreenCell) -> CellView {
    CellView {
        symbol: cell.symbol,
        fg: packed(cell.fg),
        bg: packed(cell.bg),
        modifier: cell.modifier,
        skip: cell.skip,
        hyperlink: None,
    }
}

/// Screen cells as a frame holds them.
pub open spec fn framed_cells(cells: Seq<ScreenCell>) -> Seq<CellView> {
    cells.map_values(|cell: ScreenCell| framed(cell))
}

/// The frame of the given cells, without links.
pub open spec fn frame_of(
    cells: Seq<ScreenCell>,
    width: u16,
    height: u16,
    cursor: Option<CursorState>,
) -> FrameView {
    FrameView {
        width,
        height,
        cells: framed_cells(cells),
        cursor,
        hyperlinks: Seq::empty(),
    }
}

impl FrameData {
    /// Makes a frame of what a buffer holds.
    pub fn from_ratatui_buffer(buffer: &Buffer, cursor: Option<CursorState>) -> (frame: FrameData)
        ensures
            frame@ == frame_of(
                buffer_cells(*buffer),
                buffer_area(*buffer).width,
                buffer_area(*buffer).height,
                cursor,
            ),
    {
        let (width, height) = buffer_size(buffer);
        let len: usize = buffer_len(buffer);
        let mut cells: Vec<CellData> = Vec::with_capacity(len);
        let mut at: usize = 0;
        while at < len
            invariant
                at <= len,
                len == buffer_cells(*buffer).len(),
                cells.len() == at,
                forall|i: int|
                    0 <= i < at ==> (#[trigger] cells@[i])@ == framed(buffer_cells(*buffer)[i]),
            decreases len - at,
        {
            let (symbol, modifier, skip) = cell_text(buffer, at);
            let (fg, bg) = cell_colors(buffer, at);
            cells.push(
                CellData {
                    symbol,
                    fg: pack_color(fg),
                    bg: pack_color(bg),
                    modifier,
                    skip,
                    hyperlink: None,
                },
            );
            at = at + 1;
        }
        assert(cell_views(cells@) =~= framed_cells(buffer_cells(*buffer)));
        let frame = FrameData { width, height, cells, cursor, hyperlinks: Vec::new() };
        assert(frame@.hyperlinks =~= Seq::empty());
        frame
    }

    /// A frame of the given size on which nothing was drawn.
    pub fn empty(width: u16, height: u16) -> (frame: FrameData)
        ensures
            frame@ == frame_of(empty_cells(width, height), width, height, None),
    {
        let buffer = empty_buffer(width, height);
        FrameData::from_ratatui_buffer(&buffer, None)
    }
}

/// Takes the rectangle's cells from what was drawn into a buffer.
pub fn blit_overlay(frame: &mut FrameData, overlay: &Buffer, rect: Rect)
    ensures
        final(frame)@ == with_overlay(old(frame)@, framed_cells(buffer_cells(*overlay)), rect),
{
    let overlay_frame = FrameData::from_ratatui_buffer(overlay, None);
    lay_over(frame, &overlay_frame, rect);
}

} // verus!
