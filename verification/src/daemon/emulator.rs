//! The terminal behind a pane: what its program writes becomes a screen.
use crate::daemon::screen::{
    crosses, is_whole, mode_bytes, mode_replay_of, same_modes, screen_alternate, screen_cursor,
    screen_offset, screen_size, scrolled,
};
use crate::model::PaneSize;
use crate::text::numbers::{decimal, decimal_chars};
use vstd::prelude::*;

verus! {

/// A `vt100` terminal.
#[verifier::external_body]
pub struct Emulator {
    parser: vt100::Parser,
}

/// The screen of a terminal.
pub uninterp spec fn shown(terminal: Emulator) -> vt100::Screen;

/// What `vt100::Parser::new` makes: an empty terminal of a size that keeps so many rows.
pub uninterp spec fn made(rows: u16, cols: u16, history: usize) -> Emulator;

/// What `vt100::Parser::process` makes of a terminal that takes in the bytes.
pub uninterp spec fn fed(terminal: Emulator, bytes: Seq<u8>) -> Emulator;

/// What `vt100::Screen::set_size` makes of a terminal.
pub uninterp spec fn resized(terminal: Emulator, rows: u16, cols: u16) -> Emulator;

/// The terminal with another screen in the place of its own.
pub uninterp spec fn with_screen(terminal: Emulator, screen: vt100::Screen) -> Emulator;

/// The rows that a terminal keeps when they scroll off.
pub const HISTORY_ROWS: usize = 2000;

/// The most columns with which a tab at the end of a row can still be counted.
pub const MAX_COLS: u16 = 65527;

/// A terminal can have the size: text that wraps in the last row needs a row above it, and a
/// wide character two columns.
pub open spec fn is_terminal_size(rows: u16, cols: u16) -> bool {
    rows >= 2 && 2 <= cols <= MAX_COLS
}

/// A place of the cursor as bytes: the row, and the column in it.
pub open spec fn place_bytes(row: nat, col: nat) -> Seq<u8> {
    seq![27u8, 91u8] + digit_bytes(row + 1) + seq![100u8, 27u8, 91u8] + digit_bytes(col + 1)
        + seq![71u8]
}

/// The digits of a number as bytes.
pub open spec fn digit_bytes(n: nat) -> Seq<u8> {
    decimal(n).map_values(|c: char| c as u8)
}

/// The bytes that erase the cells of a column in the first `rows` rows.
pub open spec fn column_bytes(rows: nat, col: nat) -> Seq<u8>
    decreases rows,
{
    if rows == 0 {
        Seq::empty()
    } else {
        column_bytes((rows - 1) as nat, col) + place_bytes((rows - 1) as nat, col) + seq![
            27u8,
            91u8,
            88u8,
        ]
    }
}

/// The bytes that go to the alternate screen, or back from it, and do nothing else.
pub open spec fn turn_bytes(alternate: bool) -> Seq<u8> {
    seq![27u8, 91u8, 63u8, 52u8, 55u8] + seq![
        if alternate {
            108u8
        } else {
            104u8
        },
    ]
}

/// The bytes that erase a column of what a screen shows, put the cursor back, and turn to what
/// it does not show.
pub open spec fn sweep_bytes(screen: vt100::Screen, col: u16) -> Seq<u8> {
    column_bytes(screen_size(screen).0 as nat, col as nat) + place_bytes(
        screen_cursor(screen).0 as nat,
        screen_cursor(screen).1 as nat,
    ) + turn_bytes(screen_alternate(screen))
}

/// Calls `vt100::Parser::new`: an empty terminal of the size, with its view on the screen.
#[verifier::external_body]
pub(crate) fn new_terminal(rows: u16, cols: u16, history: usize) -> (r: Emulator)
    requires
        is_terminal_size(rows, cols),
    ensures
        r == made(rows, cols, history),
        screen_size(shown(r)) == (rows, cols),
        screen_offset(shown(r)) == 0,
        is_whole(shown(r)),
{
    Emulator { parser: vt100::Parser::new(rows, cols, history) }
}

/// Calls `vt100::Parser::process`, whose result is named: the terminal takes in the bytes. It
/// keeps its size, and its characters stay whole; where they are not, or the size is not one
/// that a terminal can have, it could panic. Two things are said of what given bytes do to a
/// parser that has taken in nothing yet. Those for the modes of a screen give a fresh terminal
/// these modes. Those that erase a column leave no wide character across the edge before it,
/// and bring none there on the other screen, to which they turn.
#[verifier::external_body]
pub(crate) fn feed(terminal: &mut Emulator, bytes: &[u8])
    requires
        is_terminal_size(
            screen_size(shown(*old(terminal))).0,
            screen_size(shown(*old(terminal))).1,
        ),
        is_whole(shown(*old(terminal))),
    ensures
        *final(terminal) == fed(*old(terminal), bytes@),
        screen_size(shown(*final(terminal))) == screen_size(shown(*old(terminal))),
        is_whole(shown(*final(terminal))),
        forall|rows: u16, cols: u16, history: usize, s: vt100::Screen|
            *old(terminal) == #[trigger] made(rows, cols, history) && bytes@ == #[trigger] mode_bytes(s)
                ==> same_modes(shown(*final(terminal)), s),
        forall|rows: u16, cols: u16, history: usize, s: vt100::Screen, col: u16|
            *old(terminal) == #[trigger] with_screen(made(rows, cols, history), s) && bytes@
                == #[trigger] sweep_bytes(s, col) && 0 < col < screen_size(s).1 ==> {
                &&& screen_alternate(shown(*final(terminal))) == !screen_alternate(s)
                &&& !crosses(shown(*final(terminal)), screen_alternate(s), col)
                &&& crosses(shown(*final(terminal)), !screen_alternate(s), col) ==> crosses(
                    s,
                    !screen_alternate(s),
                    col,
                )
            },
{
    terminal.parser.process(bytes);
}

/// Calls `vt100::Parser::screen`.
#[verifier::external_body]
pub(crate) fn screen_of(terminal: &Emulator) -> (r: &vt100::Screen)
    ensures
        *r == shown(*terminal),
{
    terminal.parser.screen()
}

/// Calls `vt100::Parser::screen_mut`. What is done to the screen is done to the terminal; with
/// its own screen it is what it was.
#[verifier::external_body]
pub(crate) fn screen_of_mut(terminal: &mut Emulator) -> (r: &mut vt100::Screen)
    ensures
        *r == shown(*old(terminal)),
        *final(terminal) == with_screen(*old(terminal), *final(r)),
        shown(*final(terminal)) == *final(r),
        with_screen(*old(terminal), shown(*old(terminal))) == *old(terminal),
{
    terminal.parser.screen_mut()
}

/// Calls `vt100::Screen::set_size`: rows lose what no longer fits, or gain blanks. Characters
/// stay whole where none stands across the new edge.
#[verifier::external_body]
fn set_terminal_size(terminal: &mut Emulator, rows: u16, cols: u16)
    requires
        is_terminal_size(rows, cols),
        is_whole(shown(*old(terminal))),
        cols < screen_size(shown(*old(terminal))).1 ==> !crosses(
            shown(*old(terminal)),
            false,
            cols,
        ) && !crosses(shown(*old(terminal)), true, cols),
    ensures
        *final(terminal) == resized(*old(terminal), rows, cols),
        screen_size(shown(*final(terminal))) == (rows, cols),
        is_whole(shown(*final(terminal))),
{
    terminal.parser.screen_mut().set_size(rows, cols);
}

/// Puts the digits of a number behind the bytes.
fn push_digits(bytes: &mut Vec<u8>, n: u64)
    ensures
        final(bytes)@ == old(bytes)@ + digit_bytes(n as nat),
{
    let digits = decimal_chars(n);
    let ghost head = bytes@;
    let mut i: usize = 0;
    while i < digits.len()
        invariant
            i <= digits.len(),
            digits@ == decimal(n as nat),
            bytes@ == head + digit_bytes(n as nat).take(i as int),
        decreases digits.len() - i,
    {
        let b: u8 = digits[i] as u8;
        bytes.push(b);
        assert(digit_bytes(n as nat).take(i + 1) =~= digit_bytes(n as nat).take(i as int).push(b));
        i += 1;
    }
    assert(digit_bytes(n as nat).take(i as int) =~= digit_bytes(n as nat));
}

/// Puts a place of the cursor behind the bytes.
fn push_place(bytes: &mut Vec<u8>, row: u16, col: u16)
    ensures
        final(bytes)@ == old(bytes)@ + place_bytes(row as nat, col as nat),
{
    let ghost head = bytes@;
    bytes.push(27);
    bytes.push(91);
    push_digits(bytes, row as u64 + 1);
    bytes.push(100);
    bytes.push(27);
    bytes.push(91);
    push_digits(bytes, col as u64 + 1);
    bytes.push(71);
    assert(bytes@ =~= head + place_bytes(row as nat, col as nat));
}

/// The bytes that erase a column of what a screen shows, put the cursor back, and turn to what
/// it does not show.
fn sweep_of(screen: &vt100::Screen, col: u16) -> (r: Vec<u8>)
    ensures
        r@ == sweep_bytes(*screen, col),
{
    let (rows, _cols) = screen.size();
    let (cursor_row, cursor_col) = screen.cursor_position();
    let mut bytes: Vec<u8> = Vec::new();
    let mut row: u16 = 0;
    while row < rows
        invariant
            row <= rows,
            bytes@ == column_bytes(row as nat, col as nat),
        decreases rows - row,
    {
        let ghost before = bytes@;
        push_place(&mut bytes, row, col);
        bytes.push(27);
        bytes.push(91);
        bytes.push(88);
        row += 1;
        assert(bytes@ =~= column_bytes(row as nat, col as nat));
    }
    push_place(&mut bytes, cursor_row, cursor_col);
    let ghost placed = bytes@;
    bytes.push(27);
    bytes.push(91);
    bytes.push(63);
    bytes.push(52);
    bytes.push(55);
    if screen.alternate_screen() {
        bytes.push(108);
    } else {
        bytes.push(104);
    }
    assert(bytes@ =~= placed + turn_bytes(screen_alternate(*screen)));
    bytes
}

/// The screen once a column of what it shows is erased, with what it did not show in view.
pub open spec fn swept(screen: vt100::Screen, col: u16) -> vt100::Screen {
    shown(fed(with_screen(made(2, 2, 0), screen), sweep_bytes(screen, col)))
}

/// Erases a column of what a screen shows, and turns to what it does not show. A parser of its
/// own does it, since that of the terminal may be in the middle of a sequence.
fn sweep(screen: &mut vt100::Screen, col: u16)
    requires
        is_terminal_size(screen_size(*old(screen)).0, screen_size(*old(screen)).1),
        is_whole(*old(screen)),
        0 < col < screen_size(*old(screen)).1,
    ensures
        *final(screen) == swept(*old(screen), col),
        screen_size(*final(screen)) == screen_size(*old(screen)),
        is_whole(*final(screen)),
        screen_alternate(*final(screen)) == !screen_alternate(*old(screen)),
        !crosses(*final(screen), screen_alternate(*old(screen)), col),
        crosses(*final(screen), !screen_alternate(*old(screen)), col) ==> crosses(
            *old(screen),
            !screen_alternate(*old(screen)),
            col,
        ),
{
    let ghost first = *screen;
    let bytes = sweep_of(screen, col);
    let mut helper = new_terminal(2, 2, 0);
    core::mem::swap(screen_of_mut(&mut helper), screen);
    assert(helper == with_screen(made(2, 2, 0), first));
    feed(&mut helper, bytes.as_slice());
    core::mem::swap(screen_of_mut(&mut helper), screen);
}

/// The terminal with another size. Where it becomes narrower, a wide character across the new
/// edge goes first, on the screen and on the alternate one; the view stays where it was.
pub open spec fn fitted(terminal: Emulator, size: PaneSize) -> Emulator {
    let screen = shown(terminal);
    let base = if size.cols < screen_size(screen).1 {
        with_screen(
            terminal,
            scrolled(
                swept(swept(screen, size.cols), size.cols),
                screen_offset(screen) as usize,
            ),
        )
    } else {
        terminal
    };
    resized(base, size.rows, size.cols)
}

/// Gives the terminal a size.
pub fn resize_terminal(terminal: &mut Emulator, size: PaneSize)
    requires
        is_terminal_size(
            screen_size(shown(*old(terminal))).0,
            screen_size(shown(*old(terminal))).1,
        ),
        is_whole(shown(*old(terminal))),
        is_terminal_size(size.rows, size.cols),
    ensures
        *final(terminal) == fitted(*old(terminal), size),
        screen_size(shown(*final(terminal))) == (size.rows, size.cols),
        is_whole(shown(*final(terminal))),
{
    let (_rows, cols) = screen_of(terminal).size();
    if size.cols < cols {
        let screen = screen_of_mut(terminal);
        let back = screen.scrollback();
        sweep(screen, size.cols);
        sweep(screen, size.cols);
        screen.set_scrollback(back);
    }
    set_terminal_size(terminal, size.rows, size.cols);
}

/// The terminal that takes the place of one that is cleared: a fresh one, with the modes that
/// the old one had.
pub open spec fn cleared(terminal: Emulator, size: PaneSize) -> Emulator {
    fed(made(size.rows, size.cols, HISTORY_ROWS), mode_bytes(shown(terminal)))
}

/// Empties a terminal and what it keeps, and gives it a size. Its program has asked for its
/// modes once and does not ask again, so they stay.
pub fn clear_terminal(terminal: &mut Emulator, size: PaneSize)
    requires
        is_terminal_size(size.rows, size.cols),
    ensures
        *final(terminal) == cleared(*old(terminal), size),
        screen_size(shown(*final(terminal))) == (size.rows, size.cols),
        is_whole(shown(*final(terminal))),
        same_modes(shown(*final(terminal)), shown(*old(terminal))),
{
    let ghost before = *terminal;
    let replay = mode_replay_of(screen_of(terminal));
    let mut fresh = new_terminal(size.rows, size.cols, HISTORY_ROWS);
    feed(&mut fresh, replay.as_slice());
    assert(same_modes(shown(fresh), shown(before)));
    *terminal = fresh;
}

} // verus!
