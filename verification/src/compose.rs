//! The screen that the hub shows.

use crate::frame::{
    cell_index, copy_frame_row, covers, fill_frame_row, lemma_index_fits, lesser, min16, sat_add,
    sat_sub, with_copied_row, with_filled_row, with_overlay, with_text, write_frame_text, CellData,
    CellView, CursorState, FrameData, FrameView, Rect,
};
use crate::input::menu_rect;
use crate::protocol::{SessionSidebarSummary, SidebarView};
use crate::rows::{row_views, HubRow, HubRowTarget, RowView, TargetView};
use crate::state::{HubState, HubView, MenuView, ModalView, SessionModal};
use crate::terminal::{
    blit_overlay, block_cells, buffer_area, buffer_cells, draw_block, draw_paragraph, empty_buffer,
    empty_cells, frame_of, framed, framed_cells, is_canvas, paragraph_cells, screen, Ink,
    ScreenCell,
};
use crate::text::{clip, clipped, joined};
use ratatui::buffer::Buffer;
use vstd::prelude::*;

verus! {

/// A cell of a list, where the list has it.
pub open spec fn cell_at(cells: Seq<CellView>, index: int) -> Option<CellView> {
    if 0 <= index < cells.len() {
        Some(cells[index])
    } else {
        None
    }
}

/// A space in the default colours.
pub open spec fn plain_space() -> CellView {
    CellView { symbol: seq![' '], fg: 0, bg: 0, modifier: 0, skip: false, hyperlink: None }
}

/// The cell that the sidebar's empty cells look like: the first one below the heading of the
/// layout's spaces, else the frame's first, else a plain space.
pub open spec fn blank_template(frame: FrameView, layout: SidebarView) -> CellView {
    match cell_at(frame.cells, sat_add(layout.spaces_y, 1) * frame.width) {
        Some(cell) => cell,
        None => match cell_at(frame.cells, 0) {
            Some(cell) => cell,
            None => plain_space(),
        },
    }
}

/// The cell that the sidebar's headings look like: the second one of the heading of the layout's
/// spaces, else an empty one.
pub open spec fn heading_template(frame: FrameView, layout: SidebarView) -> CellView {
    match cell_at(frame.cells, layout.spaces_y * frame.width + 1) {
        Some(cell) => cell,
        None => blank_template(frame, layout),
    }
}

/// The frame with the first `width` cells of its rows from `top` up to `bottom` emptied.
pub open spec fn with_filled_rows(
    frame: FrameView,
    top: int,
    bottom: int,
    width: u16,
    template: CellView,
) -> FrameView
    decreases bottom - top,
{
    if top >= bottom {
        frame
    } else {
        with_filled_row(
            with_filled_rows(frame, top, bottom - 1, width, template),
            (bottom - 1) as u16,
            width,
            template,
        )
    }
}

impl HubView {
    /// The heading of a session: its name, and before it whether its workspaces are shown.
    pub open spec fn heading_of(self, name: Seq<char>) -> Seq<char> {
        if self.collapsed.contains(name) {
            " ▶ "@ + name
        } else {
            " ▼ "@ + name
        }
    }

    /// The frame with a row of a session's own screen copied into it.
    pub open spec fn with_session_row(
        self,
        frame: FrameView,
        session: Seq<char>,
        original_y: u16,
        y: u16,
        width: u16,
    ) -> FrameView {
        match self.session_frame(session) {
            Some(source) => with_copied_row(source, frame, original_y, y, sat_sub(width, 1)),
            None => frame,
        }
    }

    /// The frame with a row of a sidebar of the given width painted into it. The sidebar's last
    /// column stays as it was.
    pub open spec fn with_row(
        self,
        frame: FrameView,
        row: RowView,
        width: u16,
        heading: CellView,
    ) -> FrameView {
        match row.target {
            TargetView::Session(name) => with_text(
                frame,
                0,
                row.y,
                sat_sub(width, 1),
                self.heading_of(name),
                heading,
            ),
            TargetView::SpaceRow { session, original_y, .. } => self.with_session_row(
                frame,
                session,
                original_y,
                row.y,
                width,
            ),
            TargetView::SpaceGapRow { session, original_y } => self.with_session_row(
                frame,
                session,
                original_y,
                row.y,
                width,
            ),
            TargetView::NewSession => with_text(
                frame,
                1,
                row.y,
                sat_sub(width, 2),
                "+ new named session"@,
                heading,
            ),
        }
    }

    /// The frame with the given rows of the sidebar painted into it, one after the other.
    pub open spec fn with_rows(
        self,
        frame: FrameView,
        rows: Seq<RowView>,
        width: u16,
        heading: CellView,
    ) -> FrameView
        decreases rows.len(),
    {
        if rows.len() == 0 {
            frame
        } else {
            self.with_row(
                self.with_rows(frame, rows.drop_last(), width, heading),
                rows.last(),
                width,
                heading,
            )
        }
    }

    /// The frame of the session on the screen with the hub's sidebar painted over its own.
    pub open spec fn with_sidebar_painted(
        self,
        original: FrameView,
        layout: SidebarView,
    ) -> FrameView {
        let width = min16(layout.width, original.width);
        let emptied = with_filled_rows(
            original,
            sat_add(layout.spaces_y, 1) as int,
            min16(layout.footer_y, original.height) as int,
            sat_sub(width, 1),
            blank_template(original, layout),
        );
        self.with_rows(emptied, self.rows(), width, heading_template(original, layout))
    }

    /// The frame with the open menu over it.
    pub open spec fn with_menu_over(self, frame: FrameView) -> FrameView {
        match self.session_menu {
            Some(menu) => {
                let rect = menu_rect(menu, self.cols, self.rows);
                with_overlay(
                    frame,
                    framed_cells(menu_drawn(menu, rect, frame.width, frame.height)),
                    rect,
                )
            },
            None => frame,
        }
    }

    /// The frame with the open dialog over it.
    pub open spec fn with_modal_over(self, frame: FrameView) -> FrameView {
        match self.modal {
            Some(modal) => with_modal(frame, modal),
            None => frame,
        }
    }

    /// The frame of the session that shows something over its screen that takes all input.
    pub open spec fn overlay_frame(self) -> Option<FrameView> {
        match self.server_overlay_session {
            Some(session) => self.session_frame(session),
            None => None,
        }
    }

    /// Whether the hub's own sidebar, menu and dialog are on the screen.
    pub open spec fn paints_itself(self) -> bool {
        self.overlay_frame() is None && self.active.frame is Some && self.sidebar_layout() is Some
    }

    /// Whether what is drawn for an open menu and an open dialog has a cell for each place of a
    /// screen of the given size.
    pub open spec fn draws_whole(self, width: u16, height: u16) -> bool {
        &&& self.session_menu is Some ==> menu_drawn(
            self.session_menu->0,
            self.session_menu_rect()->0,
            width,
            height,
        ).len() == width * height
        &&& self.modal is Some ==> modal_drawn(
            self.modal->0,
            modal_rect_of(width, height, modal_error(self.modal->0) is Some),
            width,
            height,
        ).len() == width * height
    }

    /// What the hub shows: a session that shows something over its screen, as it is; else the
    /// session on the screen, with the hub's sidebar in place of its own and what is open over
    /// both; an empty screen as long as that session has none.
    pub open spec fn composed(self) -> FrameView {
        match self.overlay_frame() {
            Some(frame) => frame,
            None => match self.active.frame {
                None => frame_of(
                    empty_cells(self.cols, self.rows),
                    self.cols,
                    self.rows,
                    None,
                ),
                Some(original) => match self.sidebar_layout() {
                    None => original,
                    Some(layout) => self.with_modal_over(
                        self.with_menu_over(self.with_sidebar_painted(original, layout)),
                    ),
                },
            },
        }
    }
}

/// The colours of an entry of a menu, characters first.
pub open spec fn entry_inks(highlighted: bool) -> (Ink, Ink) {
    if highlighted {
        (Ink::Black, Ink::Cyan)
    } else {
        (Ink::White, Ink::Black)
    }
}

/// The place of an entry of a menu.
pub open spec fn entry_rect(rect: Rect, entry: u16) -> Rect {
    Rect {
        x: (rect.x + 1) as u16,
        y: (rect.y + 1 + entry) as u16,
        width: (rect.width - 2) as u16,
        height: 1,
    }
}

/// The cells of a screen with a menu drawn on it.
pub open spec fn menu_drawn(menu: MenuView, rect: Rect, width: u16, height: u16) -> Seq<
    ScreenCell,
> {
    let canvas = screen(width, height);
    let framed = block_cells(
        empty_cells(width, height),
        canvas,
        rect,
        Seq::empty(),
        Ink::Cyan,
        Ink::White,
        Ink::Black,
    );
    let first = paragraph_cells(
        framed,
        canvas,
        entry_rect(rect, 0),
        " Rename"@,
        entry_inks(menu.highlighted == 0).0,
        entry_inks(menu.highlighted == 0).1,
    );
    paragraph_cells(
        first,
        canvas,
        entry_rect(rect, 1),
        " Close"@,
        entry_inks(menu.highlighted == 1).0,
        entry_inks(menu.highlighted == 1).1,
    )
}

/// The title of a dialog.
pub open spec fn modal_title(modal: ModalView) -> Seq<char> {
    match modal {
        ModalView::Create { .. } => " New named session "@,
        ModalView::Rename { .. } => " Rename named session "@,
        ModalView::ConfirmClose { .. } => " Close named session "@,
    }
}

/// The name that is typed into a dialog.
pub open spec fn modal_input(modal: ModalView) -> Option<Seq<char>> {
    match modal {
        ModalView::Create { name, .. } => Some(name),
        ModalView::Rename { name, .. } => Some(name),
        ModalView::ConfirmClose { .. } => None,
    }
}

/// What a dialog explains.
pub open spec fn modal_message(modal: ModalView) -> Seq<char> {
    match modal {
        ModalView::Create { .. } => "Enter create  Esc cancel"@,
        ModalView::Rename { session, .. } => {
            "Renaming "@ + session + " stops and restores its saved state"@
        },
        ModalView::ConfirmClose { session, .. } => {
            "Close "@ + session + "? Enter confirms; Esc cancels"@
        },
    }
}

/// The error that a dialog shows.
pub open spec fn modal_error(modal: ModalView) -> Option<Seq<char>> {
    match modal {
        ModalView::Create { error, .. } => error,
        ModalView::Rename { error, .. } => error,
        ModalView::ConfirmClose { error, .. } => error,
    }
}

/// The place of a dialog on a screen of the given size: in its middle, with one row more for an
/// error.
pub open spec fn modal_rect_of(width: u16, height: u16, has_error: bool) -> Rect {
    let room = sat_sub(width, 4);
    let wide: u16 = if room < 20 {
        20
    } else if room > 52 {
        52
    } else {
        room
    };
    let high: u16 = if has_error {
        7
    } else {
        6
    };
    Rect {
        x: sat_sub(width, wide) / 2,
        y: sat_sub(height, high) / 2,
        width: wide,
        height: min16(high, height),
    }
}

/// The place of a line of a dialog.
pub open spec fn line_rect_of(rect: Rect, offset: u16) -> Rect {
    Rect {
        x: sat_add(rect.x, 2),
        y: sat_add(rect.y, offset),
        width: sat_sub(rect.width, 4),
        height: 1,
    }
}

/// The cells of a screen with a dialog drawn on it.
pub open spec fn modal_drawn(modal: ModalView, rect: Rect, width: u16, height: u16) -> Seq<
    ScreenCell,
> {
    let canvas = screen(width, height);
    let room = sat_sub(rect.width, 4) as nat;
    let framed = block_cells(
        empty_cells(width, height),
        canvas,
        rect,
        modal_title(modal),
        Ink::Cyan,
        Ink::White,
        Ink::Black,
    );
    let named = match modal_input(modal) {
        Some(input) => paragraph_cells(
            framed,
            canvas,
            line_rect_of(rect, 2),
            "Name: "@ + input + "_"@,
            Ink::White,
            Ink::Black,
        ),
        None => framed,
    };
    let explained = paragraph_cells(
        named,
        canvas,
        line_rect_of(rect, 4),
        clipped(modal_message(modal), room),
        Ink::DarkGray,
        Ink::Black,
    );
    match modal_error(modal) {
        Some(error) => paragraph_cells(
            explained,
            canvas,
            line_rect_of(rect, 3),
            clipped(error, room),
            Ink::Red,
            Ink::Black,
        ),
        None => explained,
    }
}

/// The cursor behind the name that is typed into a dialog, inside its border.
pub open spec fn modal_cursor_of(rect: Rect, typed: usize) -> CursorState {
    CursorState {
        x: min16(
            sat_add(sat_add(rect.x, 8), typed as u16),
            sat_add(rect.x, sat_sub(rect.width, 2)),
        ),
        y: sat_add(rect.y, 2),
        visible: true,
        shape: 6,
    }
}

/// The frame with a dialog over it, and the cursor in the dialog.
pub open spec fn with_modal(frame: FrameView, modal: ModalView) -> FrameView {
    let rect = modal_rect_of(frame.width, frame.height, modal_error(modal) is Some);
    FrameView {
        cursor: match modal_input(modal) {
            Some(input) => Some(modal_cursor_of(rect, input.len() as usize)),
            None => None,
        },
        ..with_overlay(
            frame,
            framed_cells(modal_drawn(modal, rect, frame.width, frame.height)),
            rect,
        )
    }
}

/// The place of a dialog on a screen of the given size.
pub fn modal_rect(width: u16, height: u16, has_error: bool) -> (rect: Rect)
    ensures
        rect == modal_rect_of(width, height, has_error),
{
    let room: u16 = width.saturating_sub(4);
    let wide: u16 = if room < 20 {
        20
    } else if room > 52 {
        52
    } else {
        room
    };
    let high: u16 = if has_error {
        7
    } else {
        6
    };
    Rect {
        x: width.saturating_sub(wide) / 2,
        y: height.saturating_sub(high) / 2,
        width: wide,
        height: lesser(high, height),
    }
}

/// The place of a line of a dialog.
fn line_rect(rect: Rect, offset: u16) -> (line: Rect)
    ensures
        line == line_rect_of(rect, offset),
{
    Rect {
        x: rect.x.saturating_add(2),
        y: rect.y.saturating_add(offset),
        width: rect.width.saturating_sub(4),
        height: 1,
    }
}

/// The cursor behind the name that is typed into a dialog.
pub fn modal_cursor(rect: Rect, typed: usize) -> (cursor: CursorState)
    ensures
        cursor == modal_cursor_of(rect, typed),
{
    CursorState {
        x: lesser(
            rect.x.saturating_add(8).saturating_add(typed as u16),
            rect.x.saturating_add(rect.width.saturating_sub(2)),
        ),
        y: rect.y.saturating_add(2),
        visible: true,
        shape: 6,
    }
}

/// What a dialog explains.
fn message_of(modal: &SessionModal) -> (message: String)
    ensures
        message@ == modal_message(modal@),
{
    match modal {
        SessionModal::Create(_) => "Enter create  Esc cancel".to_owned(),
        SessionModal::Rename { session, .. } => joined(
            "Renaming ",
            session.as_str(),
            " stops and restores its saved state",
        ),
        SessionModal::ConfirmClose { session, .. } => joined(
            "Close ",
            session.as_str(),
            "? Enter confirms; Esc cancels",
        ),
    }
}

/// Puts a dialog over a frame, and the cursor into the dialog.
pub fn overlay_session_modal(frame: &mut FrameData, modal: &SessionModal)
    ensures
        final(frame)@ == with_modal(old(frame)@, modal@),
        modal_drawn(
            modal@,
            modal_rect_of(old(frame).width, old(frame).height, modal_error(modal@) is Some),
            old(frame).width,
            old(frame).height,
        ).len() == old(frame).width * old(frame).height,
{
    let (title, input, error) = match modal {
        SessionModal::Create(modal) => (" New named session ", Some(&modal.name), &modal.error),
        SessionModal::Rename { name, error, .. } => (" Rename named session ", Some(name), error),
        SessionModal::ConfirmClose { error, .. } => (" Close named session ", None, error),
    };
    let message = message_of(modal);
    let rect = modal_rect(frame.width, frame.height, error.is_some());
    let room: usize = rect.width.saturating_sub(4) as usize;
    let mut overlay = empty_buffer(frame.width, frame.height);
    draw_block(&mut overlay, rect, title, Ink::Cyan, Ink::White, Ink::Black);
    if let Some(input) = input {
        let line = joined("Name: ", input.as_str(), "_");
        draw_paragraph(&mut overlay, line_rect(rect, 2), line.as_str(), Ink::White, Ink::Black);
    }
    let message = clip(message.as_str(), room);
    draw_paragraph(&mut overlay, line_rect(rect, 4), message.as_str(), Ink::DarkGray, Ink::Black);
    if let Some(error) = error {
        let line = clip(error.as_str(), room);
        draw_paragraph(&mut overlay, line_rect(rect, 3), line.as_str(), Ink::Red, Ink::Black);
    }
    blit_overlay(frame, &overlay, rect);
    frame.cursor = match input {
        Some(input) => Some(modal_cursor(rect, input.as_str().unicode_len())),
        None => None,
    };
}

/// Draws an entry of a menu.
fn draw_entry(
    overlay: &mut Buffer,
    rect: Rect,
    entry: u16,
    label: &str,
    highlighted: bool,
)
    requires
        is_canvas(*old(overlay)),
        rect.x + 1 <= u16::MAX,
        rect.y + 1 + entry <= u16::MAX,
        2 <= rect.width <= 0x7fff,
    ensures
        is_canvas(*final(overlay)),
        buffer_area(*final(overlay)) == buffer_area(*old(overlay)),
        buffer_cells(*final(overlay)) == paragraph_cells(
            buffer_cells(*old(overlay)),
            buffer_area(*old(overlay)),
            entry_rect(rect, entry),
            label@,
            entry_inks(highlighted).0,
            entry_inks(highlighted).1,
        ),
{
    let area = Rect { x: rect.x + 1, y: rect.y + 1 + entry, width: rect.width - 2, height: 1 };
    if highlighted {
        draw_paragraph(overlay, area, label, Ink::Black, Ink::Cyan);
    } else {
        draw_paragraph(overlay, area, label, Ink::White, Ink::Black);
    }
}

impl HubState {
    /// Puts the open menu over a frame.
    pub fn overlay_session_context_menu(&self, frame: &mut FrameData)
        requires
            self.session_menu is Some ==> self.cols >= 2,
        ensures
            final(frame)@ == self@.with_menu_over(old(frame)@),
            self@.session_menu is Some ==> menu_drawn(
                self@.session_menu->0,
                self@.session_menu_rect()->0,
                old(frame).width,
                old(frame).height,
            ).len() == old(frame).width * old(frame).height,
    {
        if let Some(menu) = &self.session_menu {
            if let Some(rect) = self.session_menu_rect() {
                let mut overlay = empty_buffer(frame.width, frame.height);
                proof {
                    reveal_strlit("");
                }
                let title = "";
                assert(title@ =~= Seq::empty());
                draw_block(&mut overlay, rect, title, Ink::Cyan, Ink::White, Ink::Black);
                draw_entry(&mut overlay, rect, 0, " Rename", menu.highlighted == 0);
                draw_entry(&mut overlay, rect, 1, " Close", menu.highlighted == 1);
                blit_overlay(frame, &overlay, rect);
            }
        }
    }

    /// The cell that the sidebar's empty cells look like.
    fn blank_cell(frame: &FrameData, spaces_y: u16) -> (blank: CellData)
        ensures
            forall|layout: SidebarView|
                layout.spaces_y == spaces_y ==> blank@ == #[trigger] blank_template(frame@, layout),
    {
        proof {
            lemma_index_fits(frame.width, sat_add(spaces_y, 1));
        }
        let index: usize = spaces_y.saturating_add(1) as usize * frame.width as usize;
        if index < frame.cells.len() {
            assert(frame@.cells[index as int] == frame.cells@[index as int]@);
            frame.cells[index].clone()
        } else if frame.cells.len() > 0 {
            assert(frame@.cells[0] == frame.cells@[0]@);
            frame.cells[0].clone()
        } else {
            proof {
                reveal_strlit(" ");
            }
            let symbol = " ".to_owned();
            assert(symbol@ =~= seq![' ']);
            CellData { symbol, fg: 0, bg: 0, modifier: 0, skip: false, hyperlink: None }
        }
    }

    /// Paints a row of the sidebar.
    fn paint_row(&self, frame: &mut FrameData, row: &HubRow, width: u16, heading: &CellData)
        ensures
            final(frame)@ == self@.with_row(old(frame)@, row@, width, heading@),
    {
        match &row.target {
            HubRowTarget::Session(name) => {
                let mut text = if self.collapsed.contains(name.as_str()) {
                    " ▶ ".to_owned()
                } else {
                    " ▼ ".to_owned()
                };
                text.append(name.as_str());
                write_frame_text(frame, 0, row.y, width.saturating_sub(1), text.as_str(), heading);
            },
            HubRowTarget::SpaceRow { session, original_y, .. } => {
                if let Some(source) = self.session_frame(session.as_str()) {
                    copy_frame_row(source, frame, *original_y, row.y, width.saturating_sub(1));
                }
            },
            HubRowTarget::SpaceGapRow { session, original_y } => {
                if let Some(source) = self.session_frame(session.as_str()) {
                    copy_frame_row(source, frame, *original_y, row.y, width.saturating_sub(1));
                }
            },
            HubRowTarget::NewSession => {
                write_frame_text(
                    frame,
                    1,
                    row.y,
                    width.saturating_sub(2),
                    "+ new named session",
                    heading,
                );
            },
        }
    }

    /// Paints the hub's sidebar over that of the session on the screen.
    fn paint_sidebar(&self, original: &FrameData, layout: &SessionSidebarSummary) -> (painted:
        FrameData)
        ensures
            painted@ == self@.with_sidebar_painted(original@, layout@),
    {
        let mut frame = original.clone();
        let width: u16 = lesser(layout.width, frame.width);
        let top: u16 = layout.spaces_y.saturating_add(1);
        let bottom: u16 = lesser(layout.footer_y, frame.height);
        let blank = HubState::blank_cell(original, layout.spaces_y);
        assert(blank@ == blank_template(original@, layout@));
        proof {
            lemma_index_fits(original.width, layout.spaces_y);
        }
        let heading_index: usize = layout.spaces_y as usize * original.width as usize + 1;
        let heading = if heading_index < original.cells.len() {
            assert(original@.cells[heading_index as int] == original.cells@[heading_index as int]@);
            original.cells[heading_index].clone()
        } else {
            blank.clone()
        };
        assert(heading@ == heading_template(original@, layout@));
        let narrow: u16 = width.saturating_sub(1);
        let mut y: u16 = top;
        while y < bottom
            invariant
                top <= y,
                y <= bottom || y == top,
                narrow == sat_sub(width, 1),
                frame@ == with_filled_rows(original@, top as int, y as int, narrow, blank@),
            decreases bottom - y,
        {
            fill_frame_row(&mut frame, y, narrow, &blank);
            y = y + 1;
        }
        let ghost emptied = with_filled_rows(
            original@,
            top as int,
            bottom as int,
            narrow,
            blank@,
        );
        assert(frame@ == emptied);
        let rows = self.rows();
        let ghost views = row_views(rows@);
        let mut at: usize = 0;
        assert(views.take(0) =~= Seq::empty());
        while at < rows.len()
            invariant
                at <= rows.len(),
                views == row_views(rows@),
                frame@ == self@.with_rows(emptied, views.take(at as int), width, heading@),
            decreases rows.len() - at,
        {
            assert(views.take(at + 1).drop_last() =~= views.take(at as int));
            assert(views.take(at + 1).last() == rows@[at as int]@);
            self.paint_row(&mut frame, &rows[at], width, &heading);
            at = at + 1;
        }
        assert(views.take(at as int) =~= views);
        frame
    }

    /// Composes the screen that the hub shows. A menu needs a screen of at least two columns.
    pub fn compose_frame(&self) -> (frame: FrameData)
        requires
            self@.paints_itself() && self.session_menu is Some ==> self.cols >= 2,
        ensures
            frame@ == self@.composed(),
            self@.paints_itself() ==> self@.draws_whole(frame.width, frame.height),
    {
        if let Some(session) = &self.server_overlay_session {
            if let Some(frame) = self.session_frame(session.as_str()) {
                return frame.clone();
            }
        }
        let original = match &self.active.frame {
            Some(original) => original,
            None => {
                return FrameData::empty(self.cols, self.rows);
            },
        };
        let layout = match self.sidebar_layout() {
            Some(layout) => layout,
            None => {
                return original.clone();
            },
        };
        let mut frame = self.paint_sidebar(original, layout);
        if self.session_menu.is_some() {
            self.overlay_session_context_menu(&mut frame);
        }
        if let Some(modal) = &self.modal {
            overlay_session_modal(&mut frame, modal);
        }
        frame
    }
}

/// A cell at column `x` is not among the first `count` cells of any row, where those are left of
/// the column.
proof fn lemma_not_in_row(width: u16, x: int, y: int, row: int, count: int)
    requires
        count <= x < width,
    ensures
        !(cell_index(width, 0, row) <= cell_index(width, x, y) < cell_index(width, 0, row) + count),
{
    assert(!(row * width <= y * width + x < row * width + count)) by (nonlinear_arith)
        requires
            count <= x < width,
    ;
}

/// Whether a frame has the size of another, its links and cursor, and its cell at the given place.
spec fn agrees(frame: FrameView, original: FrameView, index: int) -> bool {
    &&& frame.width == original.width
    &&& frame.height == original.height
    &&& frame.hyperlinks == original.hyperlinks
    &&& frame.cursor == original.cursor
    &&& frame.cells.len() == original.cells.len()
    &&& frame.cells[index] == original.cells[index]
}

proof fn lemma_filled_rows_agree(
    original: FrameView,
    top: int,
    bottom: int,
    count: u16,
    template: CellView,
    x: int,
    y: int,
)
    requires
        count <= x < original.width,
        0 <= cell_index(original.width, x, y) < original.cells.len(),
    ensures
        agrees(
            with_filled_rows(original, top, bottom, count, template),
            original,
            cell_index(original.width, x, y),
        ),
    decreases bottom - top,
{
    if top < bottom {
        lemma_filled_rows_agree(original, top, bottom - 1, count, template, x, y);
        lemma_not_in_row(original.width, x, y, ((bottom - 1) as u16) as int, count as int);
    }
}

proof fn lemma_rows_agree(
    hub: HubView,
    frame: FrameView,
    original: FrameView,
    rows: Seq<RowView>,
    width: u16,
    heading: CellView,
    x: int,
    y: int,
)
    requires
        width <= original.width,
        width - 1 <= x < original.width,
        0 <= x,
        0 <= cell_index(original.width, x, y) < original.cells.len(),
        agrees(frame, original, cell_index(original.width, x, y)),
    ensures
        agrees(
            hub.with_rows(frame, rows, width, heading),
            original,
            cell_index(original.width, x, y),
        ),
    decreases rows.len(),
{
    if rows.len() > 0 {
        lemma_rows_agree(hub, frame, original, rows.drop_last(), width, heading, x, y);
        let row = rows.last();
        let before = hub.with_rows(frame, rows.drop_last(), width, heading);
        lemma_not_in_row(original.width, x, y, row.y as int, sat_sub(width, 1) as int);
        assert(before.width == original.width);
    }
}

/// Where the hub shows its sidebar over a session, the session's content stays as it is: the frame
/// keeps its size and links, and every cell from the sidebar's last column on that is under
/// neither the menu nor the dialog is the session's own. Without a dialog, so is the cursor.
pub proof fn content_columns_are_preserved(
    hub: HubView,
    original: FrameView,
    layout: SidebarView,
    x: int,
    y: int,
)
    requires
        hub.overlay_frame() is None,
        hub.active.frame == Some(original),
        hub.sidebar_layout() == Some(layout),
        min16(layout.width, original.width) - 1 <= x < original.width,
        0 <= x,
        0 <= y,
        cell_index(original.width, x, y) < original.cells.len(),
        hub.session_menu_rect() matches Some(rect) ==> !covers(
            rect,
            original.width,
            cell_index(original.width, x, y),
        ),
        hub.modal matches Some(modal) ==> !covers(
            modal_rect_of(original.width, original.height, modal_error(modal) is Some),
            original.width,
            cell_index(original.width, x, y),
        ),
    ensures
        hub.composed().width == original.width,
        hub.composed().height == original.height,
        hub.composed().hyperlinks == original.hyperlinks,
        hub.composed().cells.len() == original.cells.len(),
        hub.composed().cells[cell_index(original.width, x, y)] == original.cells[cell_index(
            original.width,
            x,
            y,
        )],
        hub.modal is None ==> hub.composed().cursor == original.cursor,
{
    let width = min16(layout.width, original.width);
    let top = sat_add(layout.spaces_y, 1) as int;
    let bottom = min16(layout.footer_y, original.height) as int;
    let blank = blank_template(original, layout);
    assert(0 <= y * original.width) by (nonlinear_arith)
        requires
            0 <= y,
            0 <= original.width,
    ;
    lemma_filled_rows_agree(original, top, bottom, sat_sub(width, 1), blank, x, y);
    lemma_rows_agree(
        hub,
        with_filled_rows(original, top, bottom, sat_sub(width, 1), blank),
        original,
        hub.rows(),
        width,
        heading_template(original, layout),
        x,
        y,
    );
}

/// An open dialog is on the screen: where it is, the screen shows what was drawn of it.
pub proof fn dialog_is_shown(
    hub: HubView,
    original: FrameView,
    layout: SidebarView,
    modal: ModalView,
    index: int,
)
    requires
        hub.overlay_frame() is None,
        hub.active.frame == Some(original),
        hub.sidebar_layout() == Some(layout),
        hub.modal == Some(modal),
        hub.draws_whole(original.width, original.height),
        0 <= index < original.cells.len(),
        index < original.width * original.height,
        covers(
            modal_rect_of(original.width, original.height, modal_error(modal) is Some),
            original.width,
            index,
        ),
    ensures
        hub.composed().cells[index] == framed(
            modal_drawn(
                modal,
                modal_rect_of(original.width, original.height, modal_error(modal) is Some),
                original.width,
                original.height,
            )[index],
        ),
{
    lemma_painted_size(hub, original, layout);
}

/// Painting the sidebar keeps the size of the frame.
proof fn lemma_painted_size(hub: HubView, original: FrameView, layout: SidebarView)
    ensures
        hub.with_sidebar_painted(original, layout).width == original.width,
        hub.with_sidebar_painted(original, layout).height == original.height,
        hub.with_sidebar_painted(original, layout).cells.len() == original.cells.len(),
{
    let width = min16(layout.width, original.width);
    let top = sat_add(layout.spaces_y, 1) as int;
    let bottom = min16(layout.footer_y, original.height) as int;
    let blank = blank_template(original, layout);
    lemma_filled_size(original, top, bottom, sat_sub(width, 1), blank);
    lemma_rows_size(
        hub,
        with_filled_rows(original, top, bottom, sat_sub(width, 1), blank),
        hub.rows(),
        width,
        heading_template(original, layout),
    );
}

proof fn lemma_filled_size(
    frame: FrameView,
    top: int,
    bottom: int,
    width: u16,
    template: CellView,
)
    ensures
        with_filled_rows(frame, top, bottom, width, template).width == frame.width,
        with_filled_rows(frame, top, bottom, width, template).height == frame.height,
        with_filled_rows(frame, top, bottom, width, template).cells.len() == frame.cells.len(),
    decreases bottom - top,
{
    if top < bottom {
        lemma_filled_size(frame, top, bottom - 1, width, template);
    }
}

proof fn lemma_rows_size(
    hub: HubView,
    frame: FrameView,
    rows: Seq<RowView>,
    width: u16,
    heading: CellView,
)
    ensures
        hub.with_rows(frame, rows, width, heading).width == frame.width,
        hub.with_rows(frame, rows, width, heading).height == frame.height,
        hub.with_rows(frame, rows, width, heading).cells.len() == frame.cells.len(),
    decreases rows.len(),
{
    if rows.len() > 0 {
        lemma_rows_size(hub, frame, rows.drop_last(), width, heading);
    }
}

/// A menu is whole on the screen, which has at least one cell.
pub proof fn menu_is_on_the_screen(menu: MenuView, cols: u16, rows: u16)
    requires
        cols > 0,
        rows > 0,
    ensures
        menu_rect(menu, cols, rows).x + menu_rect(menu, cols, rows).width <= cols,
        menu_rect(menu, cols, rows).y + menu_rect(menu, cols, rows).height <= rows,
{
}

/// The cursor of a dialog is behind what comes before the name, and inside the dialog's border.
pub proof fn cursor_stays_in_the_dialog(width: u16, height: u16, has_error: bool, typed: usize)
    ensures
        ({
            let rect = modal_rect_of(width, height, has_error);
            let cursor = modal_cursor_of(rect, typed);
            rect.x + 8 <= cursor.x <= rect.x + rect.width - 2 && cursor.y == rect.y + 2
        }),
{
}

} // verus!
