//! The screen of a pane as text: plain rows, rows with colours, and the history above it.
use crate::daemon::stream::{decode_lossy, utf8_lossy};
use crate::daemon::terminal::{
    alternate_scroll_on, enter_alternate_screen, hide_cursor_bytes, mode_replay,
    MouseProtocolEncoding, MouseProtocolMode, TerminalModeTracker,
};
use crate::model::PaneStatus;
use crate::text::chars::{
    chars_of, join_strings, joined, opt_text, push_chars, string_of, texts, trim_end, trimmed_end,
};
use crate::text::numbers::{decimal, decimal_chars};
use vstd::prelude::*;

verus! {

/// The screen of a `vt100` terminal: the rows in view, and the rows that scrolled off.
#[verifier::external_type_specification]
#[verifier::external_body]
pub struct ExScreen(vt100::Screen);

/// A colour of a cell.
#[derive(Debug, Clone, Copy, PartialEq, Eq, Structural)]
pub enum Color {
    Plain,
    Idx(u8),
    Rgb(u8, u8, u8),
}

/// How a cell is drawn.
#[derive(Debug, Clone, Copy, PartialEq, Eq, Structural)]
pub struct SgrStyle {
    pub fg: Color,
    pub bg: Color,
    pub bold: bool,
    pub italic: bool,
    pub underline: bool,
    pub inverse: bool,
}

/// A cell of the screen.
#[derive(Debug)]
pub struct ScreenCell {
    pub contents: String,
    /// The right half of a wide character, which stands in the cell before.
    pub continuation: bool,
    pub style: SgrStyle,
}

/// What a cell holds.
pub struct CellView {
    pub contents: Seq<char>,
    pub continuation: bool,
    pub style: SgrStyle,
}

impl View for ScreenCell {
    type V = CellView;

    open spec fn view(&self) -> CellView {
        CellView {
            contents: self.contents@,
            continuation: self.continuation,
            style: self.style,
        }
    }
}

/// The size of a screen: rows and columns.
pub uninterp spec fn screen_size(screen: vt100::Screen) -> (u16, u16);

/// The cells of a row in view; none for a row that is not there.
pub uninterp spec fn screen_row(screen: vt100::Screen, row: u16) -> Seq<CellView>;

/// The rows in view as bytes with escape codes, `width` columns of each.
pub uninterp spec fn screen_formatted(screen: vt100::Screen, width: u16) -> Seq<Seq<u8>>;

/// How many rows the view is scrolled back.
pub uninterp spec fn screen_offset(screen: vt100::Screen) -> nat;

/// How many rows have scrolled off and are kept.
pub uninterp spec fn screen_history(screen: vt100::Screen) -> nat;

/// The same screen with the view scrolled back by so many rows.
pub uninterp spec fn scrolled(screen: vt100::Screen, rows: usize) -> vt100::Screen;

/// The alternate screen is in use.
pub uninterp spec fn screen_alternate(screen: vt100::Screen) -> bool;

/// The cursor is hidden.
pub uninterp spec fn screen_hides_cursor(screen: vt100::Screen) -> bool;

/// The bytes that ask for the input modes of the screen.
pub uninterp spec fn screen_input_modes(screen: vt100::Screen) -> Seq<u8>;

/// The text in view.
pub uninterp spec fn screen_text(screen: vt100::Screen) -> Seq<char>;

/// The row and the column of the cursor.
pub uninterp spec fn screen_cursor(screen: vt100::Screen) -> (u16, u16);

/// Which movements of the mouse the program wants to be told of.
pub uninterp spec fn screen_mouse_mode(screen: vt100::Screen) -> MouseProtocolMode;

/// How the program wants to be told of the mouse.
pub uninterp spec fn screen_mouse_encoding(screen: vt100::Screen) -> MouseProtocolEncoding;

/// Every wide character on the screen and on the alternate one has both its halves, and neither
/// half stands alone.
pub uninterp spec fn is_whole(screen: vt100::Screen) -> bool;

/// A wide character on the screen, or on the alternate one, has its halves on both sides of the
/// edge before a column.
pub uninterp spec fn crosses(screen: vt100::Screen, alternate: bool, col: u16) -> bool;

/// `vt100::Screen::contents` returns the text in view.
pub assume_specification[ vt100::Screen::contents ](screen: &vt100::Screen) -> (r: String)
    ensures
        r@ == screen_text(*screen),
;

/// `vt100::Screen::cursor_position` returns the row and the column of the cursor.
pub assume_specification[ vt100::Screen::cursor_position ](screen: &vt100::Screen) -> (r: (
    u16,
    u16,
))
    ensures
        r == screen_cursor(*screen),
;

/// Calls `vt100::Screen::mouse_protocol_mode` and gives back the mode of the same name.
#[verifier::external_body]
pub(crate) fn mouse_mode(screen: &vt100::Screen) -> (r: MouseProtocolMode)
    ensures
        r == screen_mouse_mode(*screen),
{
    match screen.mouse_protocol_mode() {
        vt100::MouseProtocolMode::None => MouseProtocolMode::Off,
        vt100::MouseProtocolMode::Press => MouseProtocolMode::Press,
        vt100::MouseProtocolMode::PressRelease => MouseProtocolMode::PressRelease,
        vt100::MouseProtocolMode::ButtonMotion => MouseProtocolMode::ButtonMotion,
        vt100::MouseProtocolMode::AnyMotion => MouseProtocolMode::AnyMotion,
    }
}

/// Calls `vt100::Screen::mouse_protocol_encoding` and gives back the encoding of the same
/// name.
#[verifier::external_body]
pub(crate) fn mouse_encoding(screen: &vt100::Screen) -> (r: MouseProtocolEncoding)
    ensures
        r == screen_mouse_encoding(*screen),
{
    match screen.mouse_protocol_encoding() {
        vt100::MouseProtocolEncoding::Default => MouseProtocolEncoding::Default,
        vt100::MouseProtocolEncoding::Utf8 => MouseProtocolEncoding::Utf8,
        vt100::MouseProtocolEncoding::Sgr => MouseProtocolEncoding::Sgr,
    }
}

/// `vt100::Screen::size` returns rows and columns.
pub assume_specification[ vt100::Screen::size ](screen: &vt100::Screen) -> (r: (u16, u16))
    ensures
        r == screen_size(*screen),
;

/// `vt100::Screen::scrollback` returns how many rows the view is scrolled back. Scrolling to
/// where the view already is changes nothing.
pub assume_specification[ vt100::Screen::scrollback ](screen: &vt100::Screen) -> (r: usize)
    ensures
        r == screen_offset(*screen),
        scrolled(*screen, r) == *screen,
;

/// `vt100::Screen::set_scrollback` moves the view, at most as far back as rows are kept. It
/// changes neither the size nor the rows, and where the view was before does not matter to
/// where it goes later.
pub assume_specification[ vt100::Screen::set_scrollback ](screen: &mut vt100::Screen, rows: usize)
    ensures
        *final(screen) == scrolled(*old(screen), rows),
        screen_offset(*final(screen)) == if rows <= screen_history(*old(screen)) {
            rows as nat
        } else {
            screen_history(*old(screen))
        },
        screen_history(*final(screen)) == screen_history(*old(screen)),
        screen_size(*final(screen)) == screen_size(*old(screen)),
        is_whole(*final(screen)) == is_whole(*old(screen)),
        forall|alternate: bool, col: u16| #[trigger]
            crosses(*final(screen), alternate, col) == crosses(*old(screen), alternate, col),
        forall|n: usize| #[trigger]
            scrolled(*final(screen), n) == scrolled(*old(screen), n),
;

/// `vt100::Screen::alternate_screen` tells whether the alternate screen is in use.
pub assume_specification[ vt100::Screen::alternate_screen ](screen: &vt100::Screen) -> (r: bool)
    ensures
        r == screen_alternate(*screen),
;

/// `vt100::Screen::hide_cursor` tells whether the cursor is hidden.
pub assume_specification[ vt100::Screen::hide_cursor ](screen: &vt100::Screen) -> (r: bool)
    ensures
        r == screen_hides_cursor(*screen),
;

/// `vt100::Screen::input_mode_formatted` returns the bytes that ask for the input modes.
pub assume_specification[ vt100::Screen::input_mode_formatted ](screen: &vt100::Screen) -> (r: Vec<
    u8,
>)
    ensures
        r@ == screen_input_modes(*screen),
;

/// Calls `vt100::Screen::cell` and reads the cell's contents and attributes. There is a cell
/// for each column of the row in view, and none past them.
#[verifier::external_body]
fn screen_cell(screen: &vt100::Screen, row: u16, col: u16) -> (r: Option<ScreenCell>)
    ensures
        r is Some <==> (col as int) < screen_row(*screen, row).len(),
        r matches Some(cell) ==> cell@ == screen_row(*screen, row)[col as int],
{
    screen.cell(row, col).map(|c| ScreenCell {
        contents: c.contents().to_string(),
        continuation: c.is_wide_continuation(),
        style: SgrStyle {
            fg: match c.fgcolor() { vt100::Color::Default => Color::Plain, vt100::Color::Idx(i) => Color::Idx(i), vt100::Color::Rgb(r, g, b) => Color::Rgb(r, g, b) },
            bg: match c.bgcolor() { vt100::Color::Default => Color::Plain, vt100::Color::Idx(i) => Color::Idx(i), vt100::Color::Rgb(r, g, b) => Color::Rgb(r, g, b) },
            bold: c.bold(), italic: c.italic(), underline: c.underline(), inverse: c.inverse(),
        },
    })
}

/// The bytes of a list of rows.
pub open spec fn byte_rows(v: Seq<Vec<u8>>) -> Seq<Seq<u8>> {
    Seq::new(v.len(), |i: int| v[i]@)
}

/// Every row in view has a cell.
pub open spec fn has_cells(screen: vt100::Screen) -> bool {
    forall|row: u16| row < screen_size(screen).0 ==> #[trigger] screen_row(screen, row).len() > 0
}

/// Every row has a cell that comes into view as it moves over the newest `row_cap` rows of the
/// history. It is so of a terminal that never was without columns.
pub open spec fn is_drawable(screen: vt100::Screen, row_cap: usize) -> bool {
    &&& has_cells(screen)
    &&& forall|n: usize|
        0 < n <= history_count(screen, row_cap) ==> has_cells(#[trigger] scrolled(screen, n))
}

/// Whether every row in view has a cell.
pub fn can_draw(screen: &vt100::Screen) -> (r: bool)
    ensures
        r == has_cells(*screen),
{
    let (rows, _cols) = screen.size();
    let mut row: u16 = 0;
    while row < rows
        invariant
            row <= rows,
            rows == screen_size(*screen).0,
            forall|k: u16| k < row ==> #[trigger] screen_row(*screen, k).len() > 0,
        decreases rows - row,
    {
        if screen_cell(screen, row, 0).is_none() {
            return false;
        }
        row += 1;
    }
    true
}

/// Whether every row has a cell that comes into view as it moves over the newest `row_cap`
/// rows of the history. The view is left as it was.
pub fn can_draw_history(screen: &mut vt100::Screen, row_cap: usize) -> (r: bool)
    ensures
        r == is_drawable(*old(screen), row_cap),
        *final(screen) == *old(screen),
{
    let ghost first = *screen;
    if !can_draw(screen) {
        return false;
    }
    let saved = screen.scrollback();
    screen.set_scrollback(usize::MAX);
    let available = screen.scrollback();
    let mut offset: usize = if available <= row_cap {
        available
    } else {
        row_cap
    };
    let mut drawable = true;
    while offset > 0 && drawable
        invariant
            offset <= history_count(first, row_cap),
            forall|n: usize| #[trigger] scrolled(*screen, n) == scrolled(first, n),
            drawable ==> forall|n: usize|
                offset < n <= history_count(first, row_cap) ==> has_cells(
                    #[trigger] scrolled(first, n),
                ),
            !drawable ==> !is_drawable(first, row_cap),
        decreases offset,
    {
        screen.set_scrollback(offset);
        drawable = can_draw(screen);
        assert(*screen == scrolled(first, offset));
        offset -= 1;
    }
    screen.set_scrollback(saved);
    drawable
}

/// Calls `vt100::Screen::rows_formatted` from column nought and collects the rows in view. A
/// row without cells would make it panic.
#[verifier::external_body]
fn formatted_rows(screen: &vt100::Screen, width: u16) -> (r: Vec<Vec<u8>>)
    requires
        has_cells(*screen),
    ensures
        byte_rows(r@) == screen_formatted(*screen, width),
{
    screen.rows_formatted(0, width).collect()
}

/// Whether wheel movements are turned into arrow keys.
pub fn alternate_scroll_active(
    status: &PaneStatus,
    modes: &TerminalModeTracker,
    screen: &vt100::Screen,
) -> (r: bool)
    ensures
        r == (*status == PaneStatus::Running && modes.alternate_scroll && screen_alternate(
            *screen,
        )),
{
    alternate_scroll_on(status, modes, screen.alternate_screen())
}

/// The bytes that bring a fresh terminal to the modes of this one.
pub open spec fn mode_bytes(screen: vt100::Screen) -> Seq<u8> {
    (if screen_alternate(screen) {
        enter_alternate_screen()
    } else {
        Seq::empty()
    }) + screen_input_modes(screen) + (if screen_hides_cursor(screen) {
        hide_cursor_bytes()
    } else {
        Seq::empty()
    })
}

/// The modes of the two screens are the same.
pub open spec fn same_modes(a: vt100::Screen, b: vt100::Screen) -> bool {
    &&& screen_alternate(a) == screen_alternate(b)
    &&& screen_hides_cursor(a) == screen_hides_cursor(b)
    &&& screen_input_modes(a) == screen_input_modes(b)
    &&& screen_mouse_mode(a) == screen_mouse_mode(b)
    &&& screen_mouse_encoding(a) == screen_mouse_encoding(b)
}

/// The bytes that bring a fresh terminal to the modes of this one, so that its program
/// need not ask for them again.
pub fn mode_replay_of(screen: &vt100::Screen) -> (r: Vec<u8>)
    ensures
        r@ == mode_bytes(*screen),
{
    let alternate_screen = screen.alternate_screen();
    let hide_cursor = screen.hide_cursor();
    let input_modes = screen.input_mode_formatted();
    mode_replay(alternate_screen, input_modes.as_slice(), hide_cursor)
}

/// The style of a cell that nothing was asked for.
pub open spec fn plain_style() -> SgrStyle {
    SgrStyle {
        fg: Color::Plain,
        bg: Color::Plain,
        bold: false,
        italic: false,
        underline: false,
        inverse: false,
    }
}

fn plain() -> (r: SgrStyle)
    ensures
        r == plain_style(),
{
    SgrStyle {
        fg: Color::Plain,
        bg: Color::Plain,
        bold: false,
        italic: false,
        underline: false,
        inverse: false,
    }
}

/// The codes of a colour, where `dark` is the code of the first dark colour, `light` is
/// eight less than that of the first light one, and `select` chooses any other.
pub open spec fn color_codes(
    color: Color,
    dark: int,
    light: int,
    select: Seq<char>,
) -> Seq<char> {
    match color {
        Color::Plain => Seq::empty(),
        Color::Idx(i) => if i < 8 {
            ";"@ + decimal((dark + i) as nat)
        } else if i < 16 {
            ";"@ + decimal((light + i) as nat)
        } else {
            select + ";5;"@ + decimal(i as nat)
        },
        Color::Rgb(r, g, b) => select + ";2;"@ + decimal(r as nat) + ";"@ + decimal(g as nat)
            + ";"@ + decimal(b as nat),
    }
}

/// The sequence that resets the attributes and sets those of the style.
pub open spec fn sgr(style: SgrStyle) -> Seq<char> {
    "\u{1b}[0"@ + (if style.bold {
        ";1"@
    } else {
        Seq::empty()
    }) + (if style.italic {
        ";3"@
    } else {
        Seq::empty()
    }) + (if style.underline {
        ";4"@
    } else {
        Seq::empty()
    }) + (if style.inverse {
        ";7"@
    } else {
        Seq::empty()
    }) + color_codes(style.fg, 30, 82, ";38"@) + color_codes(style.bg, 40, 92, ";48"@) + "m"@
}

fn push_number(out: &mut String, n: u64)
    ensures
        final(out)@ == old(out)@ + decimal(n as nat),
{
    let digits = decimal_chars(n);
    push_chars(out, digits.as_slice());
}

fn push_color(out: &mut String, color: Color, dark: u64, light: u64, select: &str)
    requires
        dark < 1000,
        light < 1000,
    ensures
        final(out)@ == old(out)@ + color_codes(color, dark as int, light as int, select@),
{
    let ghost start = out@;
    match color {
        Color::Plain => {
            assert(start + Seq::empty() =~= start);
        },
        Color::Idx(i) => {
            if i < 8 {
                out.append(";");
                push_number(out, dark + i as u64);
                assert(out@ =~= start + (";"@ + decimal((dark + i) as nat)));
            } else if i < 16 {
                out.append(";");
                push_number(out, light + i as u64);
                assert(out@ =~= start + (";"@ + decimal((light + i) as nat)));
            } else {
                out.append(select);
                out.append(";5;");
                push_number(out, i as u64);
                assert(out@ =~= start + (select@ + ";5;"@ + decimal(i as nat)));
            }
        },
        Color::Rgb(r, g, b) => {
            out.append(select);
            out.append(";2;");
            push_number(out, r as u64);
            out.append(";");
            push_number(out, g as u64);
            out.append(";");
            push_number(out, b as u64);
            assert(out@ =~= start + (select@ + ";2;"@ + decimal(r as nat) + ";"@ + decimal(g as nat)
                + ";"@ + decimal(b as nat)));
        },
    }
}

/// Appends `code` where it is asked for.
fn push_if(out: &mut String, on: bool, code: &str)
    ensures
        final(out)@ == old(out)@ + if on {
            code@
        } else {
            Seq::empty()
        },
{
    if on {
        out.append(code);
    } else {
        assert(out@ + Seq::empty() =~= out@);
    }
}

/// Appends the sequence that resets the attributes and sets those of the style.
pub fn push_sgr(out: &mut String, style: &SgrStyle)
    ensures
        final(out)@ == old(out)@ + sgr(*style),
{
    let mut code = "\u{1b}[0".to_string();
    push_if(&mut code, style.bold, ";1");
    push_if(&mut code, style.italic, ";3");
    push_if(&mut code, style.underline, ";4");
    push_if(&mut code, style.inverse, ";7");
    push_color(&mut code, style.fg, 30, 82, ";38");
    push_color(&mut code, style.bg, 40, 92, ";48");
    code.append("m");
    out.append(code.as_str());
}

/// What a cell shows: a blank where it holds nothing.
pub open spec fn cell_text(cell: CellView) -> Seq<char> {
    if cell.contents.len() == 0 {
        " "@
    } else {
        cell.contents
    }
}

/// The text of some cells, without colours.
pub open spec fn plain_cells(cells: Seq<CellView>) -> Seq<char>
    decreases cells.len(),
{
    if cells.len() == 0 {
        Seq::empty()
    } else if cells.last().continuation {
        plain_cells(cells.drop_last())
    } else {
        plain_cells(cells.drop_last()) + cell_text(cells.last())
    }
}

/// The style in force after some cells.
pub open spec fn style_after(cells: Seq<CellView>) -> SgrStyle
    decreases cells.len(),
{
    if cells.len() == 0 {
        plain_style()
    } else if cells.last().continuation {
        style_after(cells.drop_last())
    } else {
        cells.last().style
    }
}

/// The text of some cells, with a sequence wherever the style changes.
pub open spec fn styled_cells(cells: Seq<CellView>) -> Seq<char>
    decreases cells.len(),
{
    if cells.len() == 0 {
        Seq::empty()
    } else {
        let before = cells.drop_last();
        let cell = cells.last();
        if cell.continuation {
            styled_cells(before)
        } else {
            styled_cells(before) + (if cell.style == style_after(before) {
                Seq::empty()
            } else {
                sgr(cell.style)
            }) + cell_text(cell)
        }
    }
}

/// A row with colours: it begins and ends without any.
pub open spec fn styled_row(cells: Seq<CellView>) -> Seq<char> {
    styled_cells(cells) + if style_after(cells) == plain_style() {
        Seq::empty()
    } else {
        "\u{1b}[0m"@
    }
}

/// The cells of a row that are within the width of the screen.
pub open spec fn row_cells(screen: vt100::Screen, row: u16) -> Seq<CellView> {
    let cells = screen_row(screen, row);
    let cols = screen_size(screen).1;
    if cells.len() <= cols {
        cells
    } else {
        cells.take(cols as int)
    }
}

/// The cells of a row that are within the width of the screen.
fn read_row(screen: &vt100::Screen, row: u16) -> (r: Vec<ScreenCell>)
    ensures
        r@.len() == row_cells(*screen, row).len(),
        forall|i: int| 0 <= i < r@.len() ==> (#[trigger] r@[i])@ == row_cells(*screen, row)[i],
{
    let (_rows, cols) = screen.size();
    let ghost all = screen_row(*screen, row);
    let mut out: Vec<ScreenCell> = Vec::new();
    let mut col: u16 = 0;
    while col < cols
        invariant
            cols == screen_size(*screen).1,
            col <= cols,
            all == screen_row(*screen, row),
            out@.len() == if col <= all.len() {
                col as nat
            } else {
                all.len()
            },
            forall|i: int| 0 <= i < out@.len() ==> (#[trigger] out@[i])@ == all[i],
        decreases cols - col,
    {
        match screen_cell(screen, row, col) {
            Some(cell) => {
                out.push(cell);
            },
            None => {},
        }
        col += 1;
    }
    out
}

/// The views of a list of cells.
pub open spec fn cell_views(cells: Seq<ScreenCell>) -> Seq<CellView> {
    Seq::new(cells.len(), |i: int| cells[i]@)
}

/// A row with colours: a sequence wherever the style changes, and none in force at the end.
pub fn cells_ansi(cells: &[ScreenCell]) -> (r: String)
    ensures
        r@ == styled_row(cell_views(cells@)),
{
    let ghost all = cell_views(cells@);
    let mut out = String::new();
    let mut current = plain();
    let mut i: usize = 0;
    while i < cells.len()
        invariant
            i <= cells.len(),
            all == cell_views(cells@),
            out@ == styled_cells(all.take(i as int)),
            current == style_after(all.take(i as int)),
        decreases cells.len() - i,
    {
        let cell = &cells[i];
        let ghost before = out@;
        assert(all.take(i + 1).drop_last() =~= all.take(i as int));
        if !cell.continuation {
            if cell.style != current {
                push_sgr(&mut out, &cell.style);
                current = cell.style;
            } else {
                assert(before + Seq::empty() =~= before);
            }
            if cell.contents.as_str().is_empty() {
                out.append(" ");
            } else {
                out.append(cell.contents.as_str());
            }
        }
        i += 1;
    }
    assert(all.take(i as int) =~= all);
    if current != plain() {
        out.append("\u{1b}[0m");
    } else {
        assert(out@ + Seq::empty() =~= out@);
    }
    out
}

/// A row without colours.
pub fn cells_plain(cells: &[ScreenCell]) -> (r: String)
    ensures
        r@ == plain_cells(cell_views(cells@)),
{
    let ghost all = cell_views(cells@);
    let mut out = String::new();
    let mut i: usize = 0;
    while i < cells.len()
        invariant
            i <= cells.len(),
            all == cell_views(cells@),
            out@ == plain_cells(all.take(i as int)),
        decreases cells.len() - i,
    {
        let cell = &cells[i];
        assert(all.take(i + 1).drop_last() =~= all.take(i as int));
        if !cell.continuation {
            if cell.contents.as_str().is_empty() {
                out.append(" ");
            } else {
                out.append(cell.contents.as_str());
            }
        }
        i += 1;
    }
    assert(all.take(i as int) =~= all);
    out
}

/// One row in view with colours.
pub fn row_contents_ansi(screen: &vt100::Screen, row: u16) -> (r: String)
    ensures
        r@ == styled_row(row_cells(*screen, row)),
{
    let cells = read_row(screen, row);
    assert(cell_views(cells@) =~= row_cells(*screen, row));
    cells_ansi(cells.as_slice())
}

/// The rows in view with colours.
pub open spec fn styled_rows(screen: vt100::Screen, count: int) -> Seq<Seq<char>> {
    Seq::new(count as nat, |row: int| styled_row(row_cells(screen, row as u16)))
}

/// The screen with colours, one line for each row.
pub fn screen_contents_ansi(screen: &vt100::Screen) -> (r: String)
    ensures
        r@ == joined(styled_rows(*screen, screen_size(*screen).0 as int), "\n"@),
{
    let (rows, _cols) = screen.size();
    let mut lines: Vec<String> = Vec::new();
    let mut row: u16 = 0;
    while row < rows
        invariant
            row <= rows,
            texts(lines@) == styled_rows(*screen, row as int),
        decreases rows - row,
    {
        let line = row_contents_ansi(screen, row);
        let ghost before = lines@;
        lines.push(line);
        row += 1;
        assert(texts(lines@) =~= styled_rows(*screen, row as int)) by {
            assert(texts(lines@) =~= texts(before).push(line@));
        }
    }
    join_strings(lines.as_slice(), "\n")
}

/// The number of history rows that are shown where at most `lines` are asked for.
pub open spec fn history_count(screen: vt100::Screen, lines: usize) -> nat {
    if screen_history(screen) <= lines {
        screen_history(screen)
    } else {
        lines as nat
    }
}

/// The row that comes into view at the top when the view is scrolled back by `offset`.
pub open spec fn history_row(screen: vt100::Screen, offset: int, ansi: bool) -> Seq<char> {
    let cells = row_cells(scrolled(screen, offset as usize), 0);
    trimmed_end(if ansi {
        styled_row(cells)
    } else {
        plain_cells(cells)
    })
}

/// The newest `lines` rows of the history, the oldest of them first. The view is left at
/// the live screen.
pub fn parser_history_rows(screen: &mut vt100::Screen, lines: usize, ansi: bool) -> (r: Vec<String>)
    ensures
        texts(r@) == Seq::new(
            history_count(*old(screen), lines),
            |i: int| history_row(*old(screen), history_count(*old(screen), lines) - i, ansi),
        ),
        *final(screen) == scrolled(*old(screen), 0),
        screen_size(*final(screen)) == screen_size(*old(screen)),
        is_whole(*final(screen)) == is_whole(*old(screen)),
{
    let ghost first = *screen;
    screen.set_scrollback(usize::MAX);
    let kept = screen.scrollback();
    let available: usize = if kept <= lines {
        kept
    } else {
        lines
    };
    let mut rows: Vec<String> = Vec::new();
    let mut offset: usize = available;
    assert(texts(rows@) =~= Seq::empty());
    while offset > 0
        invariant
            offset <= available,
            available == history_count(first, lines),
            texts(rows@) == Seq::new(
                (available - offset) as nat,
                |i: int| history_row(first, available - i, ansi),
            ),
            forall|n: usize| #[trigger] scrolled(*screen, n) == scrolled(first, n),
            screen_size(*screen) == screen_size(first),
            is_whole(*screen) == is_whole(first),
        decreases offset,
    {
        screen.set_scrollback(offset);
        let ghost before = rows@;
        let text = if ansi {
            row_contents_ansi(screen, 0)
        } else {
            let cells = read_row(screen, 0);
            assert(cell_views(cells@) =~= row_cells(*screen, 0));
            cells_plain(cells.as_slice())
        };
        let chars = chars_of(text.as_str());
        let row = string_of(trim_end(chars.as_slice()));
        assert(row@ == history_row(first, offset as int, ansi));
        rows.push(row);
        assert(texts(rows@) =~= texts(before).push(row@));
        offset -= 1;
        assert(texts(rows@) =~= Seq::new(
            (available - offset) as nat,
            |i: int| history_row(first, available - i, ansi),
        ));
    }
    screen.set_scrollback(0);
    rows
}

/// Rows of bytes as text.
pub open spec fn lossy_rows(rows: Seq<Seq<u8>>) -> Seq<Seq<char>> {
    Seq::new(rows.len(), |i: int| utf8_lossy(rows[i]))
}

/// Rows of bytes as text.
fn decode_rows(rows: &Vec<Vec<u8>>) -> (r: Vec<String>)
    ensures
        texts(r@) == lossy_rows(byte_rows(rows@)),
{
    let ghost all = lossy_rows(byte_rows(rows@));
    let mut out: Vec<String> = Vec::new();
    let mut i: usize = 0;
    while i < rows.len()
        invariant
            i <= rows.len(),
            all == lossy_rows(byte_rows(rows@)),
            texts(out@) == all.take(i as int),
        decreases rows.len() - i,
    {
        let ghost before = out@;
        let text = decode_lossy(rows[i].as_slice());
        out.push(text);
        assert(texts(out@) =~= texts(before).push(text@));
        i += 1;
        assert(all.take(i as int) =~= all.take(i - 1).push(all[i - 1]));
    }
    assert(all.take(i as int) =~= all);
    out
}

/// The screen with escape codes, one line for each row.
pub open spec fn formatted_screen(screen: vt100::Screen) -> Seq<char> {
    joined(lossy_rows(screen_formatted(screen, screen_size(screen).1)), "\n"@)
}

/// The screen with escape codes, one line for each row.
pub fn screen_contents_formatted(screen: &vt100::Screen) -> (r: String)
    requires
        has_cells(*screen),
    ensures
        r@ == formatted_screen(*screen),
{
    let (_rows, cols) = screen.size();
    let rows = formatted_rows(screen, cols);
    let lines = decode_rows(&rows);
    join_strings(lines.as_slice(), "\n")
}

/// The screen with escape codes, one line for each row, where every row has a cell.
pub fn drawn_screen(screen: &vt100::Screen) -> (r: Option<String>)
    ensures
        opt_text(r) == if has_cells(*screen) {
            Some(formatted_screen(*screen))
        } else {
            None
        },
{
    if can_draw(screen) {
        Some(screen_contents_formatted(screen))
    } else {
        None
    }
}

/// The top row in view with escape codes, where there is one.
pub open spec fn top_row(screen: vt100::Screen, cols: u16) -> Seq<Seq<char>> {
    if screen_formatted(screen, cols).len() > 0 {
        seq![utf8_lossy(screen_formatted(screen, cols)[0])]
    } else {
        Seq::empty()
    }
}

/// The top rows as the view comes down from `from` rows back to `to`.
pub open spec fn top_rows(screen: vt100::Screen, cols: u16, from: int, to: int) -> Seq<Seq<char>>
    decreases from - to,
{
    if from <= to {
        Seq::empty()
    } else {
        top_rows(screen, cols, from, to + 1) + top_row(scrolled(screen, (to + 1) as usize), cols)
    }
}

/// The history rows that fit the cap and the screen below them, with escape codes, the
/// oldest first.
pub open spec fn formatted_scrollback(screen: vt100::Screen, row_cap: usize) -> Seq<char> {
    let rows = top_rows(
        screen,
        screen_size(screen).1,
        history_count(screen, row_cap) as int,
        0,
    );
    let live = formatted_screen(screen);
    if rows.len() == 0 {
        live
    } else if live.len() == 0 {
        joined(rows, "\n"@)
    } else {
        joined(rows, "\n"@) + "\n"@ + live
    }
}

/// The history rows and the screen with escape codes. The view is left as it was.
pub fn screen_scrollback_formatted(screen: &mut vt100::Screen, row_cap: usize) -> (r: String)
    requires
        is_drawable(*old(screen), row_cap),
    ensures
        r@ == formatted_scrollback(*old(screen), row_cap),
        *final(screen) == *old(screen),
{
    let ghost first = *screen;
    let saved = screen.scrollback();
    let (_rows, cols) = screen.size();
    screen.set_scrollback(usize::MAX);
    let available = screen.scrollback();
    let take: usize = if available <= row_cap {
        available
    } else {
        row_cap
    };
    let mut rows: Vec<String> = Vec::new();
    let mut offset: usize = take;
    assert(texts(rows@) =~= Seq::empty());
    while offset > 0
        invariant
            offset <= take,
            take == history_count(first, row_cap),
            cols == screen_size(first).1,
            texts(rows@) == top_rows(first, cols, take as int, offset as int),
            is_drawable(first, row_cap),
            forall|n: usize| #[trigger] scrolled(*screen, n) == scrolled(first, n),
        decreases offset,
    {
        screen.set_scrollback(offset);
        assert(*screen == scrolled(first, offset));
        let view = formatted_rows(screen, cols);
        assert(byte_rows(view@) == screen_formatted(scrolled(first, offset), cols));
        let ghost before = rows@;
        if view.len() > 0 {
            assert(view@[0]@ == byte_rows(view@)[0]);
            let row = decode_lossy(view[0].as_slice());
            rows.push(row);
            assert(texts(rows@) =~= texts(before) + seq![row@]);
        } else {
            assert(byte_rows(view@).len() == 0);
            assert(texts(before) + Seq::empty() =~= texts(before));
        }
        offset -= 1;
    }
    screen.set_scrollback(saved);
    let live = screen_contents_formatted(screen);
    if rows.len() == 0 {
        assert(texts(rows@).len() == 0);
        live
    } else {
        assert(texts(rows@).len() > 0);
        let mut out = join_strings(rows.as_slice(), "\n");
        if !live.as_str().is_empty() {
            out.append("\n");
            out.append(live.as_str());
        }
        out
    }
}

/// The history rows and the screen with escape codes, where every row has a cell. The view is
/// left as it was.
pub fn drawn_scrollback(screen: &mut vt100::Screen, row_cap: usize) -> (r: Option<String>)
    ensures
        opt_text(r) == if is_drawable(*old(screen), row_cap) {
            Some(formatted_scrollback(*old(screen), row_cap))
        } else {
            None
        },
        *final(screen) == *old(screen),
{
    if can_draw_history(screen, row_cap) {
        Some(screen_scrollback_formatted(screen, row_cap))
    } else {
        None
    }
}

} // verus!
