//! What the screen shows, cell by cell.

use crate::compose::{
    blank_template, content_columns_are_preserved, heading_template, menu_drawn, modal_drawn,
    modal_error, modal_message, modal_rect_of, with_filled_rows,
};
use crate::frame::{
    cell_index, covers, min16, sat_add, sat_sub, CellView, CursorState, FrameView, Rect,
};
use crate::input::menu_rect;
use crate::protocol::SidebarView;
use crate::rows::{rows_lie_apart, RowView, TargetView};
use crate::state::{HubView, MenuView, ModalView};
use crate::terminal::{
    block_cells, empty_cells, framed, packed, paragraph_cells, Color, Ink, ScreenCell,
};
use crate::text::clipped;
use vstd::prelude::*;

verus! {

/// Whether the hub paints its sidebar into the given frame of the session on the screen: no session
/// with a frame shows something that takes all input.
pub open spec fn paints_into(hub: HubView, original: FrameView, layout: SidebarView) -> bool {
    &&& hub.server_overlay_session matches Some(session) ==> hub.session_frame(session) is None
    &&& hub.active.frame == Some(original)
    &&& hub.sidebar_layout() == Some(layout)
}

/// Whether a rectangle hides the given cell of a frame of the given width.
pub open spec fn hides(rect: Rect, width: u16, index: int) -> bool {
    exists|x: int, y: int|
        rect.x <= x < rect.x + rect.width && x < u16::MAX && rect.y <= y < rect.y + rect.height
            && y < u16::MAX && index == #[trigger] cell_index(width, x, y)
}

/// Whether neither the open menu nor the open dialog hides the given cell.
pub open spec fn in_sight(hub: HubView, original: FrameView, index: int) -> bool {
    &&& hub.session_menu matches Some(menu) ==> !hides(
        menu_rect(menu, hub.cols, hub.rows),
        original.width,
        index,
    )
    &&& hub.modal matches Some(modal) ==> !hides(
        modal_rect_of(original.width, original.height, modal_error(modal) is Some),
        original.width,
        index,
    )
}

/// Whether a target stands for the given row of a session's own screen.
pub open spec fn stands_for(target: TargetView, session: Seq<char>, original_y: u16) -> bool {
    match target {
        TargetView::SpaceRow { session: owner, original_y: row, .. } => {
            owner == session && row == original_y
        },
        TargetView::SpaceGapRow { session: owner, original_y: row } => {
            owner == session && row == original_y
        },
        _ => false,
    }
}

/// The width of what the sidebar paints: its last column stays as it was.
pub open spec fn painted_width(original: FrameView, layout: SidebarView) -> int {
    if layout.width < original.width {
        layout.width - 1
    } else {
        original.width - 1
    }
}

/// A cell like the given one that shows a space and links nowhere.
pub open spec fn space_like(template: CellView) -> CellView {
    CellView { symbol: seq![' '], hyperlink: None, ..template }
}

/// A cell like the given one that shows a character and links nowhere.
pub open spec fn letter_like(template: CellView, ch: char) -> CellView {
    CellView { symbol: seq![ch], hyperlink: None, ..template }
}

/// What a row of the sidebar leaves where it has nothing to show: an empty cell, and below the
/// frame's last row what was there.
pub open spec fn left_empty(
    original: FrameView,
    layout: SidebarView,
    x: int,
    y: int,
) -> CellView {
    if y < original.height {
        space_like(blank_template(original, layout))
    } else {
        original.cells[y * original.width + x]
    }
}

/// Cells are counted row by row.
pub proof fn cells_are_counted_by_rows(width: u16, x: int, y: int, other_x: int, other_y: int)
    requires
        0 <= x < width,
        0 <= other_x < width,
    ensures
        cell_index(width, x, y) == y * width + x,
        cell_index(width, x, y) == cell_index(width, other_x, other_y) ==> x == other_x && y
            == other_y,
{
    if y * width + x == other_y * width + other_x {
        assert(x == other_x && y == other_y) by (nonlinear_arith)
            requires
                0 <= x < width,
                0 <= other_x < width,
                y * width + x == other_y * width + other_x,
        ;
    }
}

/// A rectangle covers the cells that it hides.
pub proof fn lemma_hides(rect: Rect, width: u16, index: int)
    ensures
        covers(rect, width, index) == hides(rect, width, index),
{
    if covers(rect, width, index) {
        let (x, y): (int, int) = choose|x: int, y: int|
            rect.x <= x < sat_add(rect.x, rect.width) && rect.y <= y < sat_add(rect.y, rect.height)
                && index == #[trigger] cell_index(width, x, y);
        assert(index == cell_index(width, x, y));
    }
    if hides(rect, width, index) {
        let (x, y): (int, int) = choose|x: int, y: int|
            rect.x <= x < rect.x + rect.width && x < u16::MAX && rect.y <= y < rect.y + rect.height
                && y < u16::MAX && index == #[trigger] cell_index(width, x, y);
        assert(index == cell_index(width, x, y));
    }
}

/// A row of cells from the given one on does not reach into another row.
proof fn lemma_other_row(width: u16, x: int, y: int, row: int, from: int, to: int)
    requires
        0 <= x < width,
        0 <= from,
        to <= width,
        row != y,
    ensures
        !(cell_index(width, from, row) <= cell_index(width, x, y) < cell_index(width, to, row)),
{
    assert(!(row * width + from <= y * width + x < row * width + to)) by (nonlinear_arith)
        requires
            0 <= x < width,
            0 <= from,
            to <= width,
            row != y,
    ;
}

/// Whether a row at another height, or of no width, leaves a cell as it is.
proof fn lemma_row_elsewhere(
    hub: HubView,
    frame: FrameView,
    row: RowView,
    width: u16,
    heading: CellView,
    x: int,
    y: int,
)
    requires
        width <= frame.width,
        0 <= x < frame.width,
        row.y != y,
        0 <= cell_index(frame.width, x, y) < frame.cells.len(),
    ensures
        hub.with_row(frame, row, width, heading).width == frame.width,
        hub.with_row(frame, row, width, heading).cells.len() == frame.cells.len(),
        hub.with_row(frame, row, width, heading).cells[cell_index(frame.width, x, y)]
            == frame.cells[cell_index(frame.width, x, y)],
{
    lemma_other_row(frame.width, x, y, row.y as int, 0, sat_sub(width, 1) as int);
    if width >= 2 {
        lemma_other_row(frame.width, x, y, row.y as int, 1, width - 1);
    }
}

proof fn lemma_rows_elsewhere(
    hub: HubView,
    frame: FrameView,
    rows: Seq<RowView>,
    width: u16,
    heading: CellView,
    x: int,
    y: int,
)
    requires
        width <= frame.width,
        0 <= x < frame.width,
        forall|i: int| 0 <= i < rows.len() ==> (#[trigger] rows[i]).y != y,
        0 <= cell_index(frame.width, x, y) < frame.cells.len(),
    ensures
        hub.with_rows(frame, rows, width, heading).width == frame.width,
        hub.with_rows(frame, rows, width, heading).cells.len() == frame.cells.len(),
        hub.with_rows(frame, rows, width, heading).cells[cell_index(frame.width, x, y)]
            == frame.cells[cell_index(frame.width, x, y)],
    decreases rows.len(),
{
    if rows.len() > 0 {
        let rest = rows.drop_last();
        assert forall|i: int| 0 <= i < rest.len() implies (#[trigger] rest[i]).y != y by {
            assert(rest[i] == rows[i]);
        }
        lemma_rows_elsewhere(hub, frame, rest, width, heading, x, y);
        assert(rows[rows.len() - 1].y != y);
        lemma_row_elsewhere(
            hub,
            hub.with_rows(frame, rest, width, heading),
            rows.last(),
            width,
            heading,
            x,
            y,
        );
    }
}

/// A cell shows what the row at its height paints there, over a frame that has the same cell.
proof fn lemma_rows_at(
    hub: HubView,
    frame: FrameView,
    rows: Seq<RowView>,
    width: u16,
    heading: CellView,
    i: int,
    x: int,
) -> (under: FrameView)
    requires
        width <= frame.width,
        0 <= x < frame.width,
        0 <= i < rows.len(),
        forall|j: int, k: int|
            0 <= j < k < rows.len() ==> (#[trigger] rows[j]).y < (#[trigger] rows[k]).y,
        0 <= cell_index(frame.width, x, rows[i].y as int) < frame.cells.len(),
    ensures
        under.width == frame.width,
        under.cells.len() == frame.cells.len(),
        under.cells[cell_index(frame.width, x, rows[i].y as int)] == frame.cells[cell_index(
            frame.width,
            x,
            rows[i].y as int,
        )],
        hub.with_rows(frame, rows, width, heading).width == frame.width,
        hub.with_rows(frame, rows, width, heading).cells.len() == frame.cells.len(),
        hub.with_rows(frame, rows, width, heading).cells[cell_index(
            frame.width,
            x,
            rows[i].y as int,
        )] == hub.with_row(under, rows[i], width, heading).cells[cell_index(
            frame.width,
            x,
            rows[i].y as int,
        )],
    decreases rows.len(),
{
    let y = rows[i].y as int;
    let rest = rows.drop_last();
    if i == rows.len() - 1 {
        assert forall|j: int| 0 <= j < rest.len() implies (#[trigger] rest[j]).y != y by {
            assert(rest[j] == rows[j]);
            assert(rows[j].y < rows[i].y);
        }
        lemma_rows_elsewhere(hub, frame, rest, width, heading, x, y);
        hub.with_rows(frame, rest, width, heading)
    } else {
        assert(rest[i] == rows[i]);
        assert forall|j: int, k: int| 0 <= j < k < rest.len() implies (#[trigger] rest[j]).y < (
        #[trigger] rest[k]).y by {
            assert(rest[j] == rows[j]);
            assert(rest[k] == rows[k]);
        }
        let under = lemma_rows_at(hub, frame, rest, width, heading, i, x);
        assert(rows[i].y < rows[rows.len() - 1].y);
        lemma_row_elsewhere(
            hub,
            hub.with_rows(frame, rest, width, heading),
            rows.last(),
            width,
            heading,
            x,
            y,
        );
        under
    }
}

/// Emptying rows empties their first cells and leaves the others.
proof fn lemma_filled_at(
    frame: FrameView,
    top: int,
    bottom: int,
    width: u16,
    template: CellView,
    x: int,
    y: int,
)
    requires
        width <= frame.width,
        0 <= top,
        bottom <= u16::MAX + 1,
        0 <= x < frame.width,
        0 <= cell_index(frame.width, x, y) < frame.cells.len(),
    ensures
        with_filled_rows(frame, top, bottom, width, template).width == frame.width,
        with_filled_rows(frame, top, bottom, width, template).height == frame.height,
        with_filled_rows(frame, top, bottom, width, template).cells.len() == frame.cells.len(),
        with_filled_rows(frame, top, bottom, width, template).cells[cell_index(frame.width, x, y)]
            == if top <= y < bottom && x < width {
            space_like(template)
        } else {
            frame.cells[cell_index(frame.width, x, y)]
        },
    decreases bottom - top,
{
    if top < bottom {
        lemma_filled_at(frame, top, bottom - 1, width, template, x, y);
        if y != bottom - 1 {
            lemma_other_row(frame.width, x, y, bottom - 1, 0, width as int);
        }
    }
}

/// What is over a cell that is in sight of the screen is what the sidebar painted there.
proof fn lemma_in_sight(
    hub: HubView,
    original: FrameView,
    layout: SidebarView,
    index: int,
)
    requires
        paints_into(hub, original, layout),
        in_sight(hub, original, index),
        hub.with_sidebar_painted(original, layout).width == original.width,
        hub.with_sidebar_painted(original, layout).height == original.height,
        hub.with_sidebar_painted(original, layout).cells.len() == original.cells.len(),
        0 <= index < original.cells.len(),
    ensures
        hub.composed().cells.len() == original.cells.len(),
        hub.composed().cells[index] == hub.with_sidebar_painted(original, layout).cells[index],
{
    match hub.session_menu {
        Some(menu) => lemma_hides(menu_rect(menu, hub.cols, hub.rows), original.width, index),
        None => {},
    }
    match hub.modal {
        Some(modal) => lemma_hides(
            modal_rect_of(original.width, original.height, modal_error(modal) is Some),
            original.width,
            index,
        ),
        None => {},
    }
}

proof fn lemma_rows_height(
    hub: HubView,
    frame: FrameView,
    rows: Seq<RowView>,
    width: u16,
    heading: CellView,
)
    ensures
        hub.with_rows(frame, rows, width, heading).height == frame.height,
    decreases rows.len(),
{
    if rows.len() > 0 {
        lemma_rows_height(hub, frame, rows.drop_last(), width, heading);
    }
}

/// The cell of the emptied frame under a row, and that of the screen as the row painted it.
proof fn lemma_row_shown(
    hub: HubView,
    original: FrameView,
    layout: SidebarView,
    i: int,
    x: int,
) -> (under: FrameView)
    requires
        paints_into(hub, original, layout),
        0 <= i < hub.rows().len(),
        0 <= x < painted_width(original, layout),
        cell_index(original.width, x, hub.rows()[i].y as int) < original.cells.len(),
        in_sight(hub, original, cell_index(original.width, x, hub.rows()[i].y as int)),
    ensures
        0 <= cell_index(original.width, x, hub.rows()[i].y as int),
        under.width == original.width,
        under.cells.len() == original.cells.len(),
        under.cells[cell_index(original.width, x, hub.rows()[i].y as int)]
            == if hub.rows()[i].y < original.height {
            space_like(blank_template(original, layout))
        } else {
            original.cells[cell_index(original.width, x, hub.rows()[i].y as int)]
        },
        hub.composed().cells.len() == original.cells.len(),
        hub.composed().cells[cell_index(original.width, x, hub.rows()[i].y as int)]
            == hub.with_row(
            under,
            hub.rows()[i],
            min16(layout.width, original.width),
            heading_template(original, layout),
        ).cells[cell_index(original.width, x, hub.rows()[i].y as int)],
{
    let y = hub.rows()[i].y as int;
    let rows = hub.rows();
    let width = min16(layout.width, original.width);
    let top = sat_add(layout.spaces_y, 1) as int;
    let bottom = min16(layout.footer_y, original.height) as int;
    let blank = blank_template(original, layout);
    let emptied = with_filled_rows(original, top, bottom, sat_sub(width, 1), blank);
    assert(0 <= y * original.width) by (nonlinear_arith)
        requires
            0 <= y,
            0 <= original.width,
    ;
    rows_lie_apart(hub, layout, i);
    lemma_filled_at(original, top, bottom, sat_sub(width, 1), blank, x, y);
    assert forall|j: int, k: int| 0 <= j < k < rows.len() implies (#[trigger] rows[j]).y < (
    #[trigger] rows[k]).y by {
        rows_lie_apart(hub, layout, j);
    }
    let under = lemma_rows_at(
        hub,
        emptied,
        rows,
        width,
        heading_template(original, layout),
        i,
        x,
    );
    lemma_rows_height(hub, emptied, rows, width, heading_template(original, layout));
    lemma_in_sight(hub, original, layout, cell_index(original.width, x, y));
    under
}

/// A row of the sidebar that stands for a row of a session's own screen shows it: every cell, up to
/// the sidebar's last column, is the one that the session's own frame has there. That holds of
/// every session, on the screen or not. Cells that the session has not got are empty.
pub proof fn workspace_rows_show_the_sessions_own(
    hub: HubView,
    original: FrameView,
    layout: SidebarView,
    i: int,
    session: Seq<char>,
    original_y: u16,
    x: int,
)
    requires
        paints_into(hub, original, layout),
        0 <= i < hub.rows().len(),
        stands_for(hub.rows()[i].target, session, original_y),
        0 <= x < painted_width(original, layout),
        hub.rows()[i].y * original.width + x < original.cells.len(),
        in_sight(hub, original, hub.rows()[i].y * original.width + x),
    ensures
        hub.composed().cells.len() == original.cells.len(),
        0 <= hub.rows()[i].y * original.width + x,
        match hub.session_frame(session) {
            Some(own) if x < own.width && original_y * own.width + x < own.cells.len() => {
                0 <= original_y * own.width + x && hub.composed().cells[hub.rows()[i].y
                    * original.width + x] == own.cells[original_y * own.width + x]
            },
            _ => hub.composed().cells[hub.rows()[i].y * original.width + x] == left_empty(
                original,
                layout,
                x,
                hub.rows()[i].y as int,
            ),
        },
{
    let under = lemma_row_shown(hub, original, layout, i, x);
    assert(cell_index(original.width, x, hub.rows()[i].y as int) == hub.rows()[i].y
        * original.width + x);
    match hub.session_frame(session) {
        Some(own) => {
            assert(0 <= original_y * own.width) by (nonlinear_arith)
                requires
                    0 <= original_y,
                    0 <= own.width,
            ;
        },
        None => {},
    }
}

/// The heading of a session shows, after a mark that points down where its workspaces are shown and
/// to the right where they are not, the session's name, in the look of the layout's own heading;
/// what is left of the row is empty.
#[verifier::rlimit(40)]
pub proof fn headings_show_the_names(
    hub: HubView,
    original: FrameView,
    layout: SidebarView,
    i: int,
    name: Seq<char>,
    x: int,
)
    requires
        paints_into(hub, original, layout),
        0 <= i < hub.rows().len(),
        hub.rows()[i].target == TargetView::Session(name),
        0 <= x < painted_width(original, layout),
        hub.rows()[i].y * original.width + x < original.cells.len(),
        in_sight(hub, original, hub.rows()[i].y * original.width + x),
    ensures
        hub.composed().cells.len() == original.cells.len(),
        ({
            let text = seq![
                ' ',
                if hub.collapsed.contains(name) {
                    '▶'
                } else {
                    '▼'
                },
                ' ',
            ] + name;
            let cell = hub.composed().cells[hub.rows()[i].y * original.width + x];
            if x < text.len() {
                cell == letter_like(heading_template(original, layout), text[x])
            } else {
                cell == left_empty(original, layout, x, hub.rows()[i].y as int)
            }
        }),
{
    let under = lemma_row_shown(hub, original, layout, i, x);
    assert(cell_index(original.width, x, hub.rows()[i].y as int) == hub.rows()[i].y
        * original.width + x);
    reveal_strlit(" ▶ ");
    reveal_strlit(" ▼ ");
    assert(" ▶ "@ =~= seq![' ', '▶', ' ']);
    assert(" ▼ "@ =~= seq![' ', '▼', ' ']);
}

/// The row that makes a new session says so, from the second column on.
pub proof fn new_session_row_says_so(
    hub: HubView,
    original: FrameView,
    layout: SidebarView,
    i: int,
    x: int,
)
    requires
        paints_into(hub, original, layout),
        0 <= i < hub.rows().len(),
        hub.rows()[i].target == TargetView::NewSession,
        0 <= x < painted_width(original, layout),
        hub.rows()[i].y * original.width + x < original.cells.len(),
        in_sight(hub, original, hub.rows()[i].y * original.width + x),
    ensures
        hub.composed().cells.len() == original.cells.len(),
        ({
            let text = "+ new named session"@;
            let cell = hub.composed().cells[hub.rows()[i].y * original.width + x];
            if 1 <= x <= text.len() {
                cell == letter_like(heading_template(original, layout), text[x - 1])
            } else {
                cell == left_empty(original, layout, x, hub.rows()[i].y as int)
            }
        }),
{
    let under = lemma_row_shown(hub, original, layout, i, x);
    assert(cell_index(original.width, x, hub.rows()[i].y as int) == hub.rows()[i].y
        * original.width + x);
}

/// Where the sidebar has no row, its cells are empty between the heading of the layout's spaces and
/// the footer, and are the session's own above and below.
pub proof fn the_rest_of_the_sidebar_is_empty(
    hub: HubView,
    original: FrameView,
    layout: SidebarView,
    x: int,
    y: int,
)
    requires
        paints_into(hub, original, layout),
        forall|i: int| 0 <= i < hub.rows().len() ==> (#[trigger] hub.rows()[i]).y != y,
        0 <= y,
        0 <= x < painted_width(original, layout),
        y * original.width + x < original.cells.len(),
        in_sight(hub, original, y * original.width + x),
    ensures
        0 <= y * original.width + x,
        hub.composed().cells.len() == original.cells.len(),
        hub.composed().cells[y * original.width + x] == if layout.spaces_y < y < layout.footer_y
            && y < original.height {
            space_like(blank_template(original, layout))
        } else {
            original.cells[y * original.width + x]
        },
{
    let width = min16(layout.width, original.width);
    let top = sat_add(layout.spaces_y, 1) as int;
    let bottom = min16(layout.footer_y, original.height) as int;
    let blank = blank_template(original, layout);
    let heading = heading_template(original, layout);
    let emptied = with_filled_rows(original, top, bottom, sat_sub(width, 1), blank);
    assert(0 <= y * original.width) by (nonlinear_arith)
        requires
            0 <= y,
            0 <= original.width,
    ;
    assert(cell_index(original.width, x, y) == y * original.width + x);
    lemma_filled_at(original, top, bottom, sat_sub(width, 1), blank, x, y);
    lemma_rows_elsewhere(hub, emptied, hub.rows(), width, heading, x, y);
    lemma_rows_height(hub, emptied, hub.rows(), width, heading);
    lemma_in_sight(hub, original, layout, cell_index(original.width, x, y));
}

/// Empty cells look like the first one below the heading of the layout's spaces, and headings like
/// the second one of it, where the frame has them.
pub proof fn the_sidebar_keeps_its_looks(original: FrameView, layout: SidebarView)
    ensures
        layout.spaces_y < u16::MAX && (layout.spaces_y + 1) * original.width
            < original.cells.len() ==> blank_template(original, layout) == original.cells[(
        layout.spaces_y + 1) * original.width],
        0 < original.cells.len() <= (layout.spaces_y + 1) * original.width && layout.spaces_y
            < u16::MAX ==> blank_template(original, layout) == original.cells[0],
        original.cells.len() == 0 ==> blank_template(original, layout) == (CellView {
            symbol: seq![' '],
            fg: 0,
            bg: 0,
            modifier: 0,
            skip: false,
            hyperlink: None,
        }),
        layout.spaces_y * original.width + 1 < original.cells.len() ==> heading_template(
            original,
            layout,
        ) == original.cells[layout.spaces_y * original.width + 1],
        layout.spaces_y * original.width + 1 >= original.cells.len() ==> heading_template(
            original,
            layout,
        ) == blank_template(original, layout),
{
    assert(0 <= layout.spaces_y * original.width && 0 <= (layout.spaces_y + 1) * original.width)
        by (nonlinear_arith)
        requires
            0 <= layout.spaces_y,
            0 <= original.width,
    ;
}

/// Every cell from the sidebar's last column on that is in sight is that of the session on the
/// screen.
pub proof fn content_is_the_sessions_own(
    hub: HubView,
    original: FrameView,
    layout: SidebarView,
    x: int,
    y: int,
)
    requires
        paints_into(hub, original, layout),
        painted_width(original, layout) <= x < original.width,
        0 <= x,
        0 <= y,
        y * original.width + x < original.cells.len(),
        in_sight(hub, original, y * original.width + x),
    ensures
        hub.composed().cells.len() == original.cells.len(),
        hub.composed().cells[y * original.width + x] == original.cells[y * original.width + x],
{
    assert(cell_index(original.width, x, y) == y * original.width + x);
    match hub.session_menu {
        Some(menu) => lemma_hides(
            menu_rect(menu, hub.cols, hub.rows),
            original.width,
            y * original.width + x,
        ),
        None => {},
    }
    match hub.modal {
        Some(modal) => lemma_hides(
            modal_rect_of(original.width, original.height, modal_error(modal) is Some),
            original.width,
            y * original.width + x,
        ),
        None => {},
    }
    content_columns_are_preserved(hub, original, layout, x, y);
}

/// A session that shows something that takes all input has the whole screen to itself; without a
/// layout so does the session on the screen; and as long as that has no frame, the screen is empty.
pub proof fn sessions_can_have_the_screen_to_themselves(hub: HubView)
    ensures
        hub.server_overlay_session matches Some(session) ==> (hub.session_frame(session) matches
            Some(frame) ==> hub.composed() == frame),
        (hub.server_overlay_session matches Some(session) ==> hub.session_frame(session) is None)
            ==> {
            &&& hub.active.frame is None ==> {
                &&& hub.composed().width == hub.cols
                &&& hub.composed().height == hub.rows
                &&& hub.composed().cells.len() == hub.cols * hub.rows
                &&& hub.composed().cursor is None
                &&& hub.composed().hyperlinks.len() == 0
                &&& forall|i: int|
                    0 <= i < hub.composed().cells.len() ==> #[trigger] hub.composed().cells[i] == (
                    CellView {
                        symbol: seq![' '],
                        fg: 0,
                        bg: 0,
                        modifier: 0,
                        skip: false,
                        hyperlink: None,
                    })
            }
            &&& hub.active.frame matches Some(original) ==> {
                &&& hub.sidebar_layout() is None ==> hub.composed() == original
                &&& hub.composed().width == original.width
                &&& hub.composed().height == original.height
                &&& hub.composed().hyperlinks == original.hyperlinks
                &&& hub.composed().cells.len() == original.cells.len()
                &&& hub.modal is None ==> hub.composed().cursor == original.cursor
            }
        },
{
    assert(0 <= hub.cols * hub.rows) by (nonlinear_arith)
        requires
            0 <= hub.cols,
            0 <= hub.rows,
    ;
    match (hub.active.frame, hub.sidebar_layout()) {
        (Some(original), Some(layout)) => {
            let width = min16(layout.width, original.width);
            let top = sat_add(layout.spaces_y, 1) as int;
            let bottom = min16(layout.footer_y, original.height) as int;
            let blank = blank_template(original, layout);
            lemma_filled_keeps(original, top, bottom, sat_sub(width, 1), blank);
            lemma_rows_keep(
                hub,
                with_filled_rows(original, top, bottom, sat_sub(width, 1), blank),
                hub.rows(),
                width,
                heading_template(original, layout),
            );
        },
        _ => {},
    }
}

/// Whether a frame differs from another in the contents of its cells alone.
spec fn differs_in_cells(frame: FrameView, other: FrameView) -> bool {
    &&& frame == (FrameView { cells: frame.cells, ..other })
    &&& frame.cells.len() == other.cells.len()
}

proof fn lemma_filled_keeps(
    frame: FrameView,
    top: int,
    bottom: int,
    width: u16,
    template: CellView,
)
    ensures
        differs_in_cells(with_filled_rows(frame, top, bottom, width, template), frame),
    decreases bottom - top,
{
    if top < bottom {
        lemma_filled_keeps(frame, top, bottom - 1, width, template);
    }
}

proof fn lemma_rows_keep(
    hub: HubView,
    frame: FrameView,
    rows: Seq<RowView>,
    width: u16,
    heading: CellView,
)
    ensures
        differs_in_cells(hub.with_rows(frame, rows, width, heading), frame),
    decreases rows.len(),
{
    if rows.len() > 0 {
        lemma_rows_keep(hub, frame, rows.drop_last(), width, heading);
    }
}

/// Colours go by their numbers: the default one by zero, the named ones by their place, one of the
/// palette by its index and any other by its parts, each behind a mark of its own.
pub proof fn colors_have_their_numbers(index: u8, r: u8, g: u8, b: u8)
    ensures
        packed(Color::Reset) == 0,
        packed(Color::Black) == 1,
        packed(Color::Red) == 2,
        packed(Color::Green) == 3,
        packed(Color::Yellow) == 4,
        packed(Color::Blue) == 5,
        packed(Color::Magenta) == 6,
        packed(Color::Cyan) == 7,
        packed(Color::Gray) == 8,
        packed(Color::DarkGray) == 9,
        packed(Color::LightRed) == 10,
        packed(Color::LightGreen) == 11,
        packed(Color::LightYellow) == 12,
        packed(Color::LightBlue) == 13,
        packed(Color::LightMagenta) == 14,
        packed(Color::LightCyan) == 15,
        packed(Color::White) == 16,
        packed(Color::Indexed(index)) == 0x0100_0000 + index,
        packed(Color::Rgb(r, g, b)) == 0x0200_0000 + 0x1_0000 * r + 0x100 * g + b,
{
}

/// A drawn cell goes into a frame with all that it shows.
pub proof fn drawn_cells_are_kept(cell: ScreenCell)
    ensures
        framed(cell).symbol == cell.symbol,
        framed(cell).fg == packed(cell.fg),
        framed(cell).bg == packed(cell.bg),
        framed(cell).modifier == cell.modifier,
        framed(cell).skip == cell.skip,
        framed(cell).hyperlink is None,
{
}

/// A grid of spaces in the default colours.
pub open spec fn bare_grid(width: u16, height: u16) -> Seq<ScreenCell> {
    Seq::new(
        (width * height) as nat,
        |i: int|
            ScreenCell {
                symbol: seq![' '],
                fg: Color::Reset,
                bg: Color::Reset,
                modifier: 0,
                skip: false,
            },
    )
}

/// A menu opens where the mouse was, sixteen columns wide and four rows high, or as near to there
/// as the screen has room for it.
pub proof fn menus_open_at_the_mouse(hub: HubView, menu: MenuView)
    requires
        hub.session_menu == Some(menu),
    ensures
        hub.session_menu_rect() == Some(menu_rect(menu, hub.cols, hub.rows)),
        ({
            let rect = menu_rect(menu, hub.cols, hub.rows);
            &&& rect.width == (if hub.cols >= 16 {
                16
            } else if hub.cols >= 1 {
                hub.cols as int
            } else {
                1
            })
            &&& rect.height == (if hub.rows >= 4 {
                4
            } else if hub.rows >= 1 {
                hub.rows as int
            } else {
                1
            })
            &&& rect.x == (if menu.x + rect.width <= hub.cols {
                menu.x as int
            } else if hub.cols >= rect.width {
                hub.cols - rect.width
            } else {
                0
            })
            &&& rect.y == (if menu.y + rect.height <= hub.rows {
                menu.y as int
            } else if hub.rows >= rect.height {
                hub.rows - rect.height
            } else {
                0
            })
        }),
{
}

/// What is drawn of a menu: a frame, in it `Rename` in the first row and `Close` in the second, the
/// highlighted one in black on cyan and the other in white on black.
pub open spec fn menu_picture(menu: MenuView, rect: Rect, width: u16, height: u16) -> Seq<
    ScreenCell,
> {
    let canvas = Rect { x: 0, y: 0, width, height };
    let frame = block_cells(
        bare_grid(width, height),
        canvas,
        rect,
        Seq::empty(),
        Ink::Cyan,
        Ink::White,
        Ink::Black,
    );
    let line = |row: int|
        Rect {
            x: (rect.x + 1) as u16,
            y: (rect.y + 1 + row) as u16,
            width: (rect.width - 2) as u16,
            height: 1,
        };
    let ink = |entry: int|
        if menu.highlighted == entry {
            (Ink::Black, Ink::Cyan)
        } else {
            (Ink::White, Ink::Black)
        };
    paragraph_cells(
        paragraph_cells(frame, canvas, line(0), " Rename"@, ink(0).0, ink(0).1),
        canvas,
        line(1),
        " Close"@,
        ink(1).0,
        ink(1).1,
    )
}

/// An open menu is on the screen: every cell of its place that no dialog hides shows what is drawn
/// of the menu there.
pub proof fn menus_are_shown(
    hub: HubView,
    original: FrameView,
    layout: SidebarView,
    menu: MenuView,
    index: int,
)
    requires
        paints_into(hub, original, layout),
        hub.session_menu == Some(menu),
        0 <= index < original.cells.len(),
        hides(menu_rect(menu, hub.cols, hub.rows), original.width, index),
        hub.modal matches Some(modal) ==> !hides(
            modal_rect_of(original.width, original.height, modal_error(modal) is Some),
            original.width,
            index,
        ),
        index < menu_picture(
            menu,
            menu_rect(menu, hub.cols, hub.rows),
            original.width,
            original.height,
        ).len(),
    ensures
        hub.composed().cells[index] == framed(
            menu_picture(
                menu,
                menu_rect(menu, hub.cols, hub.rows),
                original.width,
                original.height,
            )[index],
        ),
{
    let rect = menu_rect(menu, hub.cols, hub.rows);
    sessions_can_have_the_screen_to_themselves(hub);
    lemma_painted_keeps(hub, original, layout);
    lemma_hides(rect, original.width, index);
    match hub.modal {
        Some(modal) => lemma_hides(
            modal_rect_of(original.width, original.height, modal_error(modal) is Some),
            original.width,
            index,
        ),
        None => {},
    }
    lemma_menu_picture(menu, rect, original.width, original.height);
}

/// A menu is drawn as its picture says.
pub proof fn lemma_menu_picture(menu: MenuView, rect: Rect, width: u16, height: u16)
    ensures
        menu_drawn(menu, rect, width, height) == menu_picture(menu, rect, width, height),
{
    assert(empty_cells(width, height) =~= bare_grid(width, height));
}

proof fn lemma_painted_keeps(hub: HubView, original: FrameView, layout: SidebarView)
    ensures
        differs_in_cells(hub.with_sidebar_painted(original, layout), original),
{
    let width = min16(layout.width, original.width);
    let top = sat_add(layout.spaces_y, 1) as int;
    let bottom = min16(layout.footer_y, original.height) as int;
    let blank = blank_template(original, layout);
    lemma_filled_keeps(original, top, bottom, sat_sub(width, 1), blank);
    lemma_rows_keep(
        hub,
        with_filled_rows(original, top, bottom, sat_sub(width, 1), blank),
        hub.rows(),
        width,
        heading_template(original, layout),
    );
}

/// A dialog is in the middle of the screen, twenty to fifty-two columns wide with two columns free
/// on either side where there is room, and six rows high, or seven with an error.
pub proof fn dialogs_are_in_the_middle(width: u16, height: u16, has_error: bool)
    ensures
        ({
            let rect = modal_rect_of(width, height, has_error);
            let high = if has_error {
                7int
            } else {
                6int
            };
            &&& rect.width == (if width < 24 {
                20
            } else if width > 56 {
                52
            } else {
                width - 4
            })
            &&& rect.height == (if height < high {
                height as int
            } else {
                high
            })
            &&& rect.x == (if width < 20 {
                0
            } else {
                (width - rect.width) / 2
            })
            &&& rect.y == (if height < high {
                0
            } else {
                (height - high) / 2
            })
        }),
{
}

/// What is drawn of a dialog: a frame with its title, in it the name as far as it is typed and what
/// is typed next to it, what the dialog explains, and the error in red between them.
pub open spec fn dialog_picture(modal: ModalView, rect: Rect, width: u16, height: u16) -> Seq<
    ScreenCell,
> {
    let canvas = Rect { x: 0, y: 0, width, height };
    let room = if rect.width < 4 {
        0
    } else {
        rect.width - 4
    };
    let line = |row: int|
        Rect {
            x: if rect.x + 2 > u16::MAX {
                u16::MAX
            } else {
                (rect.x + 2) as u16
            },
            y: if rect.y + row > u16::MAX {
                u16::MAX
            } else {
                (rect.y + row) as u16
            },
            width: room as u16,
            height: 1,
        };
    let fit = |text: Seq<char>|
        if text.len() <= room {
            text
        } else {
            text.subrange(0, room)
        };
    let (title, typed, message, error) = match modal {
        ModalView::Create { name, error } => (
            " New named session "@,
            Some(name),
            "Enter create  Esc cancel"@,
            error,
        ),
        ModalView::Rename { session, name, error } => (
            " Rename named session "@,
            Some(name),
            "Renaming "@ + session + " stops and restores its saved state"@,
            error,
        ),
        ModalView::ConfirmClose { session, error } => (
            " Close named session "@,
            None,
            "Close "@ + session + "? Enter confirms; Esc cancels"@,
            error,
        ),
    };
    let frame = block_cells(
        bare_grid(width, height),
        canvas,
        rect,
        title,
        Ink::Cyan,
        Ink::White,
        Ink::Black,
    );
    let named = match typed {
        Some(name) => paragraph_cells(
            frame,
            canvas,
            line(2),
            "Name: "@ + name + "_"@,
            Ink::White,
            Ink::Black,
        ),
        None => frame,
    };
    let explained = paragraph_cells(
        named,
        canvas,
        line(4),
        fit(message),
        Ink::DarkGray,
        Ink::Black,
    );
    match error {
        Some(error) => paragraph_cells(
            explained,
            canvas,
            line(3),
            fit(error),
            Ink::Red,
            Ink::Black,
        ),
        None => explained,
    }
}

/// An open dialog is on the screen, over all else: every cell of its place shows what is drawn of
/// the dialog there, and the cursor is behind the name that is typed into it.
pub proof fn dialogs_are_shown(
    hub: HubView,
    original: FrameView,
    layout: SidebarView,
    modal: ModalView,
    error: Option<Seq<char>>,
    index: int,
)
    requires
        paints_into(hub, original, layout),
        hub.modal == Some(modal),
        error == (match modal {
            ModalView::Create { error, .. } => error,
            ModalView::Rename { error, .. } => error,
            ModalView::ConfirmClose { error, .. } => error,
        }),
    ensures
        ({
            let rect = modal_rect_of(original.width, original.height, error is Some);
            let picture = dialog_picture(modal, rect, original.width, original.height);
            &&& 0 <= index < original.cells.len() && index < picture.len() && hides(
                rect,
                original.width,
                index,
            ) ==> hub.composed().cells[index] == framed(picture[index])
            &&& match modal {
                ModalView::ConfirmClose { .. } => hub.composed().cursor is None,
                ModalView::Create { name, .. } => name.len() <= u16::MAX ==> hub.composed().cursor
                    == Some(cursor_behind(rect, name.len() as int)),
                ModalView::Rename { name, .. } => name.len() <= u16::MAX ==> hub.composed().cursor
                    == Some(cursor_behind(rect, name.len() as int)),
            }
        }),
{
    let rect = modal_rect_of(original.width, original.height, error is Some);
    assert(error == modal_error(modal));
    sessions_can_have_the_screen_to_themselves(hub);
    lemma_painted_keeps(hub, original, layout);
    lemma_hides(rect, original.width, index);
    lemma_dialog_picture(modal, rect, original.width, original.height);
}

/// The cursor behind a name of the given length, before the dialog's border.
pub open spec fn cursor_behind(rect: Rect, length: int) -> CursorState {
    CursorState {
        x: if 8 + length <= rect.width - 2 {
            (rect.x + 8 + length) as u16
        } else {
            (rect.x + rect.width - 2) as u16
        },
        y: (rect.y + 2) as u16,
        visible: true,
        shape: 6,
    }
}

/// A dialog is drawn as its picture says.
pub proof fn lemma_dialog_picture(modal: ModalView, rect: Rect, width: u16, height: u16)
    ensures
        modal_drawn(modal, rect, width, height) == dialog_picture(modal, rect, width, height),
{
    let room = sat_sub(rect.width, 4) as nat;
    assert(empty_cells(width, height) =~= bare_grid(width, height));
    lemma_clipped(modal_message(modal), room);
    match modal_error(modal) {
        Some(error) => lemma_clipped(error, room),
        None => {},
    }
}

proof fn lemma_clipped(text: Seq<char>, room: nat)
    ensures
        clipped(text, room) == if text.len() <= room {
            text
        } else {
            text.subrange(0, room as int)
        },
{
    if text.len() == room {
        assert(text.take(room as int) =~= text);
    }
}

} // verus!
