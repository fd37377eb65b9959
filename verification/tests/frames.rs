use ratatui::buffer::Buffer;
use ratatui::layout::Rect as Area;
use ratatui::style::{Color as Paint, Modifier, Style};
use session_hub::frame::{
    copy_frame_row, fill_frame_row, lay_over, lesser, write_frame_text, CellData, CursorState,
    FrameData, Rect,
};
use session_hub::terminal::{blit_overlay, pack_color, Color};
use session_hub::text::{characters, clip, joined, names_in_order};

fn labelled_frame(width: u16, height: u16) -> FrameData {
    let mut buffer = Buffer::empty(Area::new(0, 0, width, height));
    for y in 0..height {
        for x in 0..width {
            let symbol = y.to_string();
            buffer[(x, y)].set_symbol(&symbol);
        }
    }
    FrameData::from_ratatui_buffer(&buffer, None)
}

fn symbols(frame: &FrameData, y: u16) -> String {
    let start = y as usize * frame.width as usize;
    frame.cells[start..start + frame.width as usize]
        .iter()
        .map(|cell| cell.symbol.as_str())
        .collect()
}

#[test]
fn moving_sidebar_rows_preserves_standard_content_columns() {
    let source = labelled_frame(8, 6);
    let mut composed = source.clone();
    let blank = source.cells[0].clone();

    fill_frame_row(&mut composed, 2, 3, &blank);
    copy_frame_row(&source, &mut composed, 1, 2, 3);

    for x in 0..3 {
        let x = x as usize;
        assert_eq!(composed.cells[2 * 8 + x], source.cells[8 + x]);
    }
    for y in 0..6 {
        for x in 3..8 {
            let index = (y * 8 + x) as usize;
            assert_eq!(composed.cells[index], source.cells[index]);
        }
    }
}

#[test]
fn a_buffer_becomes_a_frame_cell_by_cell() {
    let mut buffer = Buffer::empty(Area::new(0, 0, 3, 2));
    buffer[(1, 0)].set_symbol("x").set_style(
        Style::default()
            .fg(Paint::Red)
            .bg(Paint::Indexed(7))
            .add_modifier(Modifier::BOLD),
    );
    buffer[(2, 1)].set_fg(Paint::Rgb(1, 2, 3));
    let cursor = CursorState { x: 1, y: 1, visible: true, shape: 2 };
    let frame = FrameData::from_ratatui_buffer(&buffer, Some(cursor));
    assert_eq!((frame.width, frame.height), (3, 2));
    assert_eq!(frame.cells.len(), 6);
    assert_eq!(frame.cursor, Some(cursor));
    assert!(frame.hyperlinks.is_empty());
    assert_eq!(
        frame.cells[1],
        CellData {
            symbol: "x".to_owned(),
            fg: 2,
            bg: 0x0100_0007,
            modifier: Modifier::BOLD.bits(),
            skip: false,
            hyperlink: None,
        }
    );
    assert_eq!(frame.cells[5].fg, 0x0201_0203);
    assert_eq!(
        frame.cells[0],
        CellData {
            symbol: " ".to_owned(),
            fg: 0,
            bg: 0,
            modifier: 0,
            skip: false,
            hyperlink: None,
        }
    );
}

#[test]
fn an_empty_frame_holds_spaces() {
    let frame = FrameData::empty(4, 3);
    assert_eq!((frame.width, frame.height), (4, 3));
    assert_eq!(frame.cells.len(), 12);
    assert!(frame.cells.iter().all(|cell| cell.symbol == " " && cell.fg == 0 && cell.bg == 0));
    assert_eq!(frame.cursor, None);
    assert!(FrameData::empty(0, 3).cells.is_empty());
}

#[test]
fn colors_are_kept_apart() {
    let colors = [
        Color::Reset,
        Color::Black,
        Color::Red,
        Color::Green,
        Color::Yellow,
        Color::Blue,
        Color::Magenta,
        Color::Cyan,
        Color::Gray,
        Color::DarkGray,
        Color::LightRed,
        Color::LightGreen,
        Color::LightYellow,
        Color::LightBlue,
        Color::LightMagenta,
        Color::LightCyan,
        Color::White,
        Color::Indexed(0),
        Color::Indexed(255),
        Color::Rgb(0, 0, 0),
        Color::Rgb(255, 255, 255),
    ];
    for (i, left) in colors.iter().enumerate() {
        for right in &colors[i + 1..] {
            assert_ne!(pack_color(*left), pack_color(*right));
        }
    }
    assert_eq!(pack_color(Color::Reset), 0);
    assert_eq!(pack_color(Color::White), 16);
    assert_eq!(pack_color(Color::Rgb(255, 255, 255)), 0x02ff_ffff);
}

#[test]
fn every_named_color_of_a_buffer_is_packed() {
    let paints = [
        (Paint::Reset, Color::Reset),
        (Paint::Black, Color::Black),
        (Paint::Red, Color::Red),
        (Paint::Green, Color::Green),
        (Paint::Yellow, Color::Yellow),
        (Paint::Blue, Color::Blue),
        (Paint::Magenta, Color::Magenta),
        (Paint::Cyan, Color::Cyan),
        (Paint::Gray, Color::Gray),
        (Paint::DarkGray, Color::DarkGray),
        (Paint::LightRed, Color::LightRed),
        (Paint::LightGreen, Color::LightGreen),
        (Paint::LightYellow, Color::LightYellow),
        (Paint::LightBlue, Color::LightBlue),
        (Paint::LightMagenta, Color::LightMagenta),
        (Paint::LightCyan, Color::LightCyan),
        (Paint::White, Color::White),
        (Paint::Indexed(9), Color::Indexed(9)),
        (Paint::Rgb(9, 8, 7), Color::Rgb(9, 8, 7)),
    ];
    for (paint, color) in paints {
        let mut buffer = Buffer::empty(Area::new(0, 0, 1, 1));
        buffer[(0, 0)].set_fg(paint).set_bg(paint);
        let frame = FrameData::from_ratatui_buffer(&buffer, None);
        assert_eq!(frame.cells[0].fg, pack_color(color));
        assert_eq!(frame.cells[0].bg, pack_color(color));
    }
}

#[test]
fn filling_keeps_the_template_but_for_symbol_and_link() {
    let mut frame = labelled_frame(4, 3);
    let template = CellData {
        symbol: "#".to_owned(),
        fg: 5,
        bg: 6,
        modifier: 7,
        skip: true,
        hyperlink: Some(1),
    };
    fill_frame_row(&mut frame, 1, 2, &template);
    assert_eq!(symbols(&frame, 1), "  11");
    assert_eq!(
        frame.cells[4],
        CellData { symbol: " ".to_owned(), fg: 5, bg: 6, modifier: 7, skip: true, hyperlink: None }
    );
    fill_frame_row(&mut frame, 2, 9, &template);
    assert_eq!(symbols(&frame, 2), "    ");
    fill_frame_row(&mut frame, 65535, 4, &template);
    assert_eq!(symbols(&frame, 0), "0000");
}

#[test]
fn text_is_clipped_to_its_width() {
    let mut frame = labelled_frame(6, 2);
    let template = frame.cells[0].clone();
    write_frame_text(&mut frame, 1, 0, 3, "▼éabc", &template);
    assert_eq!(symbols(&frame, 0), "0▼éa00");
    write_frame_text(&mut frame, 4, 1, 9, "abc", &template);
    assert_eq!(symbols(&frame, 1), "1111ab");
}

#[test]
fn rows_are_copied_as_far_as_both_frames_go() {
    let source = labelled_frame(3, 4);
    let mut target = labelled_frame(5, 2);
    copy_frame_row(&source, &mut target, 3, 0, 9);
    assert_eq!(symbols(&target, 0), "33300");
    copy_frame_row(&source, &mut target, 4, 1, 9);
    assert_eq!(symbols(&target, 1), "11111");
    copy_frame_row(&source, &mut target, 2, 7, 2);
    assert_eq!(symbols(&target, 1), "11111");
}

#[test]
fn an_overlay_covers_its_rectangle() {
    let mut frame = labelled_frame(5, 4);
    let mut overlay = labelled_frame(5, 4);
    let template = overlay.cells[0].clone();
    for y in 0..4 {
        write_frame_text(&mut overlay, 0, y, 5, "*****", &template);
    }
    lay_over(&mut frame, &overlay, Rect { x: 1, y: 1, width: 2, height: 2 });
    assert_eq!(symbols(&frame, 0), "00000");
    assert_eq!(symbols(&frame, 1), "1**11");
    assert_eq!(symbols(&frame, 2), "2**22");
    assert_eq!(symbols(&frame, 3), "33333");
}

#[test]
fn a_buffer_is_laid_over_a_frame() {
    let mut frame = labelled_frame(3, 2);
    let mut overlay = Buffer::empty(Area::new(0, 0, 3, 2));
    overlay[(2, 1)].set_symbol("@");
    blit_overlay(&mut frame, &overlay, Rect { x: 1, y: 1, width: 9, height: 9 });
    assert_eq!(symbols(&frame, 0), "000");
    assert_eq!(symbols(&frame, 1), "1 @");
}

#[test]
fn texts_are_clipped_joined_and_ordered() {
    assert_eq!(clip("▶ abc", 3), "▶ a");
    assert_eq!(clip("ab", 3), "ab");
    assert_eq!(clip("ab", 0), "");
    assert_eq!(characters("aé"), vec!['a', 'é']);
    assert_eq!(joined("a", "b", "c"), "abc");
    for (left, right) in [("", "a"), ("a", "a"), ("a", "ab"), ("Z", "a"), ("a", "é"), ("é", "日")] {
        assert!(names_in_order(left, right));
        assert_eq!(names_in_order(right, left), left == right);
        assert_eq!(left <= right, names_in_order(left, right));
    }
    assert_eq!(lesser(3, 4), 3);
    assert_eq!(lesser(4, 3), 3);
}
