//! What a terminal is told and what is read from it.
use crate::daemon::lifecycle::{pane_env_pairs, read_back, started, DaemonPaths};
use crate::daemon::live::{
    attention_noted, light_merged, screen_noted, terminal_size, with_inferred, ScreenFacts,
};
use crate::daemon::osc::{
    notification_text, osc_message, osc_payloads, osc_progress, osc_title_text,
};
use crate::daemon::runtime::{active_key, key_tab, runtime_key_round_trip, sane};
use crate::daemon::screen::{
    plain_cells, plain_style, sgr, style_after, styled_cells, styled_row, CellView, Color, SgrStyle,
};
use crate::daemon::status::{is_completion_notice, is_idle_notice};
use crate::daemon::terminal::{
    alternate_scroll_param, enter_alternate_screen, has_param, hide_cursor_bytes, mode_after,
    mouse_encoding_name, mouse_mode_name, param_at, ModeModel, MouseProtocolEncoding,
    MouseProtocolMode, TerminalModeScanState,
};
use crate::daemon::view_size::{effective, live_only, without_viewer, ViewOverride};
use crate::model::{AgentStatus, Pane, PaneSize, PaneStatus};
use crate::text::chars::{
    begins, char_position, char_position_from_is, char_position_from_is_first, filled, has_text,
    is_numeric, is_white, lowered, opt_text, parts, position_from, position_from_is,
    position_from_is_first, trimmed, trimmed_of_solid,
};
use crate::text::numbers::{decimal, decimal_round_trip};
use vstd::prelude::*;

verus! {

/// The characters as bytes, one for one.
pub open spec fn as_bytes(s: Seq<char>) -> Seq<u8> {
    Seq::new(s.len(), |i: int| s[i] as u8)
}

/// The names by which the modes of a mouse are told.
pub proof fn mouse_modes_are_named()
    ensures
        mouse_mode_name(MouseProtocolMode::Off) == ""@,
        mouse_mode_name(MouseProtocolMode::Press) == "press"@,
        mouse_mode_name(MouseProtocolMode::PressRelease) == "press-release"@,
        mouse_mode_name(MouseProtocolMode::ButtonMotion) == "button-motion"@,
        mouse_mode_name(MouseProtocolMode::AnyMotion) == "any-motion"@,
        mouse_encoding_name(MouseProtocolEncoding::Default) == ""@,
        mouse_encoding_name(MouseProtocolEncoding::Utf8) == "utf8"@,
        mouse_encoding_name(MouseProtocolEncoding::Sgr) == "sgr"@,
{
}

/// The sequences that switch to the alternate screen and that hide the cursor.
pub proof fn replayed_sequences()
    ensures
        enter_alternate_screen() == as_bytes("\u{1b}[?1049h"@),
        hide_cursor_bytes() == as_bytes("\u{1b}[?25l"@),
        alternate_scroll_param() == as_bytes("1007"@),
{
    reveal_strlit("\u{1b}[?1049h");
    reveal_strlit("\u{1b}[?25l");
    reveal_strlit("1007");
    assert(enter_alternate_screen() =~= as_bytes("\u{1b}[?1049h"@));
    assert(hide_cursor_bytes() =~= as_bytes("\u{1b}[?25l"@));
    assert(alternate_scroll_param() =~= as_bytes("1007"@));
}

/// A program turns the alternate scroll mode on and off by setting and resetting private mode
/// 1007, alone or among others; a sequence of another kind, or one that does not name it, leaves
/// the mode as it was.
pub proof fn alternate_scroll_is_set(was: bool, before: Seq<u8>, after: Seq<u8>)
    requires
        before.len() == 0 || before.last() == 59u8,
        after.len() == 0 || after[0] == 59u8,
    ensures
        mode_after(was, seq![63u8] + before + as_bytes("1007"@) + after, 104u8),
        !mode_after(was, seq![63u8] + before + as_bytes("1007"@) + after, 108u8),
        forall|last: u8|
            last != 104 && last != 108 ==> #[trigger] mode_after(
                was,
                seq![63u8] + before + as_bytes("1007"@) + after,
                last,
            ) == was,
        forall|csi: Seq<u8>, last: u8|
            csi.len() == 0 || csi[0] != 63 ==> #[trigger] mode_after(was, csi, last) == was,
{
    replayed_sequences();
    reveal_strlit("1007");
    let param = as_bytes("1007"@);
    let csi = seq![63u8] + before + param + after;
    let list = csi.skip(1);
    let i = before.len() as int;
    assert(list =~= before + param + after);
    assert(list.subrange(i, i + param.len()) =~= param);
    if i > 0 {
        assert(list[i - 1] == before.last());
    }
    if after.len() > 0 {
        assert(list[i + param.len()] == after[0]);
    }
    assert(param_at(list, param, i));
    assert(has_param(list, param));
}

/// From wherever text stands, the whole sequence turns the mode on or off, and text without an
/// escape leaves it as it was.
pub proof fn modes_are_followed(m: ModeModel, text: Seq<u8>)
    requires
        m.state == TerminalModeScanState::Ground,
    ensures
        m.run(as_bytes("\u{1b}[?1007h"@)).alternate_scroll,
        !m.run(as_bytes("\u{1b}[?1007l"@)).alternate_scroll,
        (forall|i: int| 0 <= i < text.len() ==> #[trigger] text[i] != 27) ==> m.run(text)
            .alternate_scroll == m.alternate_scroll,
{
    reveal_strlit("\u{1b}[?1007h");
    reveal_strlit("\u{1b}[?1007l");
    let on = as_bytes("\u{1b}[?1007h"@);
    let off = as_bytes("\u{1b}[?1007l"@);
    assert(on =~= seq![27u8, 91u8, 63u8, 49u8, 48u8, 48u8, 55u8, 104u8]);
    assert(off =~= seq![27u8, 91u8, 63u8, 49u8, 48u8, 48u8, 55u8, 108u8]);
    run_of_eight(m, on);
    run_of_eight(m, off);
    alternate_scroll_is_set(m.alternate_scroll, Seq::empty(), Seq::empty());
    reveal_strlit("1007");
    assert(seq![63u8] + Seq::<u8>::empty() + as_bytes("1007"@) + Seq::<u8>::empty() =~= seq![
        63u8,
        49u8,
        48u8,
        48u8,
        55u8,
    ]);
    if forall|i: int| 0 <= i < text.len() ==> #[trigger] text[i] != 27 {
        plain_run(m, text);
    }
}

proof fn plain_run(m: ModeModel, text: Seq<u8>)
    requires
        m.state == TerminalModeScanState::Ground,
        forall|i: int| 0 <= i < text.len() ==> #[trigger] text[i] != 27,
    ensures
        m.run(text) == m,
    decreases text.len(),
{
    if text.len() > 0 {
        let shorter = text.drop_last();
        assert(text[text.len() - 1] == text.last());
        assert forall|i: int| 0 <= i < shorter.len() implies #[trigger] shorter[i] != 27 by {
            assert(shorter[i] == text[i]);
        }
        plain_run(m, shorter);
    }
}

proof fn run_of_eight(m: ModeModel, b: Seq<u8>)
    requires
        m.state == TerminalModeScanState::Ground,
        b.len() == 8,
        b[0] == 27,
        b[1] == 91,
        b[2] == 63,
        b[3] == 49,
        b[4] == 48,
        b[5] == 48,
        b[6] == 55,
        b[7] == 104 || b[7] == 108,
    ensures
        m.run(b).alternate_scroll == mode_after(
            m.alternate_scroll,
            seq![63u8, 49u8, 48u8, 48u8, 55u8],
            b[7],
        ),
{
    let b7 = b.drop_last();
    let b6 = b7.drop_last();
    let b5 = b6.drop_last();
    let b4 = b5.drop_last();
    let b3 = b4.drop_last();
    let b2 = b3.drop_last();
    let b1 = b2.drop_last();
    let b0 = b1.drop_last();
    assert(b0.len() == 0);
    assert(m.run(b0) == m);
    assert(b1.last() == b[0] && b2.last() == b[1] && b3.last() == b[2] && b4.last() == b[3]
        && b5.last() == b[4] && b6.last() == b[5] && b7.last() == b[6] && b.last() == b[7]);
    assert(m.run(b1) == m.run(b0).step(b[0]));
    assert(m.run(b2) == m.run(b1).step(b[1]));
    assert(m.run(b3) == m.run(b2).step(b[2]));
    assert(m.run(b4) == m.run(b3).step(b[3]));
    assert(m.run(b5) == m.run(b4).step(b[4]));
    assert(m.run(b6) == m.run(b5).step(b[5]));
    assert(m.run(b7) == m.run(b6).step(b[6]));
    assert(m.run(b7).csi =~= seq![63u8, 49u8, 48u8, 48u8, 55u8]);
    assert(m.run(b) == m.run(b7).step(b[7]));
}

/// The sequence of a style begins with a reset. A colour of the first eight is 30 and on before
/// and 40 and on behind the text, of the next eight 90 and on and 100 and on; any other is chosen
/// by its number or by its red, green and blue.
pub proof fn styles_are_written(i: u8, r: u8, g: u8, b: u8)
    ensures
        sgr(plain_style()) == "\u{1b}[0m"@,
        i < 8 ==> sgr(SgrStyle { fg: Color::Idx(i), ..plain_style() }) == "\u{1b}[0;"@ + decimal(
            (30 + i) as nat,
        ) + "m"@,
        8 <= i < 16 ==> sgr(SgrStyle { fg: Color::Idx(i), ..plain_style() }) == "\u{1b}[0;"@
            + decimal((90 + i - 8) as nat) + "m"@,
        i >= 16 ==> sgr(SgrStyle { fg: Color::Idx(i), ..plain_style() }) == "\u{1b}[0;38;5;"@
            + decimal(i as nat) + "m"@,
        i < 8 ==> sgr(SgrStyle { bg: Color::Idx(i), ..plain_style() }) == "\u{1b}[0;"@ + decimal(
            (40 + i) as nat,
        ) + "m"@,
        8 <= i < 16 ==> sgr(SgrStyle { bg: Color::Idx(i), ..plain_style() }) == "\u{1b}[0;"@
            + decimal((100 + i - 8) as nat) + "m"@,
        i >= 16 ==> sgr(SgrStyle { bg: Color::Idx(i), ..plain_style() }) == "\u{1b}[0;48;5;"@
            + decimal(i as nat) + "m"@,
        sgr(SgrStyle { fg: Color::Rgb(r, g, b), ..plain_style() }) == "\u{1b}[0;38;2;"@ + decimal(
            r as nat,
        ) + ";"@ + decimal(g as nat) + ";"@ + decimal(b as nat) + "m"@,
        sgr(SgrStyle { bg: Color::Rgb(r, g, b), ..plain_style() }) == "\u{1b}[0;48;2;"@ + decimal(
            r as nat,
        ) + ";"@ + decimal(g as nat) + ";"@ + decimal(b as nat) + "m"@,
        sgr(SgrStyle { bold: true, ..plain_style() }) == "\u{1b}[0;1m"@,
        sgr(SgrStyle { italic: true, ..plain_style() }) == "\u{1b}[0;3m"@,
        sgr(SgrStyle { underline: true, ..plain_style() }) == "\u{1b}[0;4m"@,
        sgr(SgrStyle { inverse: true, ..plain_style() }) == "\u{1b}[0;7m"@,
{
    style_literals();
    let none = Seq::<char>::empty();
    let a = SgrStyle { fg: Color::Idx(i), ..plain_style() };
    let c = SgrStyle { bg: Color::Idx(i), ..plain_style() };
    let d = SgrStyle { fg: Color::Rgb(r, g, b), ..plain_style() };
    let e = SgrStyle { bg: Color::Rgb(r, g, b), ..plain_style() };
    assert(sgr(plain_style()) =~= "\u{1b}[0m"@);
    assert(sgr(SgrStyle { bold: true, ..plain_style() }) =~= "\u{1b}[0;1m"@);
    assert(sgr(SgrStyle { italic: true, ..plain_style() }) =~= "\u{1b}[0;3m"@);
    assert(sgr(SgrStyle { underline: true, ..plain_style() }) =~= "\u{1b}[0;4m"@);
    assert(sgr(SgrStyle { inverse: true, ..plain_style() }) =~= "\u{1b}[0;7m"@);
    if i < 8 {
        assert(sgr(a) =~= "\u{1b}[0;"@ + decimal((30 + i) as nat) + "m"@);
        assert(sgr(c) =~= "\u{1b}[0;"@ + decimal((40 + i) as nat) + "m"@);
    } else if i < 16 {
        assert(82 + i == 90 + i - 8 && 92 + i == 100 + i - 8);
        assert(sgr(a) =~= "\u{1b}[0;"@ + decimal((90 + i - 8) as nat) + "m"@);
        assert(sgr(c) =~= "\u{1b}[0;"@ + decimal((100 + i - 8) as nat) + "m"@);
    } else {
        assert(sgr(a) =~= "\u{1b}[0;38;5;"@ + decimal(i as nat) + "m"@);
        assert(sgr(c) =~= "\u{1b}[0;48;5;"@ + decimal(i as nat) + "m"@);
    }
    assert(sgr(d) =~= "\u{1b}[0;38;2;"@ + decimal(r as nat) + ";"@ + decimal(g as nat) + ";"@
        + decimal(b as nat) + "m"@);
    assert(sgr(e) =~= "\u{1b}[0;48;2;"@ + decimal(r as nat) + ";"@ + decimal(g as nat) + ";"@
        + decimal(b as nat) + "m"@);
}

proof fn style_literals()
    ensures
        "\u{1b}[0"@ == seq!['\u{1b}', '[', '0'],
        "m"@ == seq!['m'],
        ";"@ == seq![';'],
        ";1"@ == seq![';', '1'],
        ";3"@ == seq![';', '3'],
        ";4"@ == seq![';', '4'],
        ";7"@ == seq![';', '7'],
        ";38"@ == seq![';', '3', '8'],
        ";48"@ == seq![';', '4', '8'],
        ";5;"@ == seq![';', '5', ';'],
        ";2;"@ == seq![';', '2', ';'],
        "\u{1b}[0m"@ == seq!['\u{1b}', '[', '0', 'm'],
        "\u{1b}[0;"@ == seq!['\u{1b}', '[', '0', ';'],
        "\u{1b}[0;1m"@ == seq!['\u{1b}', '[', '0', ';', '1', 'm'],
        "\u{1b}[0;3m"@ == seq!['\u{1b}', '[', '0', ';', '3', 'm'],
        "\u{1b}[0;4m"@ == seq!['\u{1b}', '[', '0', ';', '4', 'm'],
        "\u{1b}[0;7m"@ == seq!['\u{1b}', '[', '0', ';', '7', 'm'],
        "\u{1b}[0;38;5;"@ == seq!['\u{1b}', '[', '0', ';', '3', '8', ';', '5', ';'],
        "\u{1b}[0;48;5;"@ == seq!['\u{1b}', '[', '0', ';', '4', '8', ';', '5', ';'],
        "\u{1b}[0;38;2;"@ == seq!['\u{1b}', '[', '0', ';', '3', '8', ';', '2', ';'],
        "\u{1b}[0;48;2;"@ == seq!['\u{1b}', '[', '0', ';', '4', '8', ';', '2', ';'],
{
    reveal_strlit("\u{1b}[0");
    reveal_strlit("m");
    reveal_strlit(";");
    reveal_strlit(";1");
    reveal_strlit(";3");
    reveal_strlit(";4");
    reveal_strlit(";7");
    reveal_strlit(";38");
    reveal_strlit(";48");
    reveal_strlit(";5;");
    reveal_strlit(";2;");
    reveal_strlit("\u{1b}[0m");
    reveal_strlit("\u{1b}[0;");
    reveal_strlit("\u{1b}[0;1m");
    reveal_strlit("\u{1b}[0;3m");
    reveal_strlit("\u{1b}[0;4m");
    reveal_strlit("\u{1b}[0;7m");
    reveal_strlit("\u{1b}[0;38;5;");
    reveal_strlit("\u{1b}[0;48;5;");
    reveal_strlit("\u{1b}[0;38;2;");
    reveal_strlit("\u{1b}[0;48;2;");
    assert("\u{1b}[0"@ =~= seq!['\u{1b}', '[', '0']);
    assert("m"@ =~= seq!['m']);
    assert(";"@ =~= seq![';']);
    assert(";1"@ =~= seq![';', '1']);
    assert(";3"@ =~= seq![';', '3']);
    assert(";4"@ =~= seq![';', '4']);
    assert(";7"@ =~= seq![';', '7']);
    assert(";38"@ =~= seq![';', '3', '8']);
    assert(";48"@ =~= seq![';', '4', '8']);
    assert(";5;"@ =~= seq![';', '5', ';']);
    assert(";2;"@ =~= seq![';', '2', ';']);
    assert("\u{1b}[0m"@ =~= seq!['\u{1b}', '[', '0', 'm']);
    assert("\u{1b}[0;"@ =~= seq!['\u{1b}', '[', '0', ';']);
    assert("\u{1b}[0;1m"@ =~= seq!['\u{1b}', '[', '0', ';', '1', 'm']);
    assert("\u{1b}[0;3m"@ =~= seq!['\u{1b}', '[', '0', ';', '3', 'm']);
    assert("\u{1b}[0;4m"@ =~= seq!['\u{1b}', '[', '0', ';', '4', 'm']);
    assert("\u{1b}[0;7m"@ =~= seq!['\u{1b}', '[', '0', ';', '7', 'm']);
    assert("\u{1b}[0;38;5;"@ =~= seq!['\u{1b}', '[', '0', ';', '3', '8', ';', '5', ';']);
    assert("\u{1b}[0;48;5;"@ =~= seq!['\u{1b}', '[', '0', ';', '4', '8', ';', '5', ';']);
    assert("\u{1b}[0;38;2;"@ =~= seq!['\u{1b}', '[', '0', ';', '3', '8', ';', '2', ';']);
    assert("\u{1b}[0;48;2;"@ =~= seq!['\u{1b}', '[', '0', ';', '4', '8', ';', '2', ';']);
}

/// A row without colours is written as its characters alone, the right half of a wide one left
/// out; and a blank stands for a cell that holds nothing.
pub proof fn plain_rows_hold_no_sequences(cells: Seq<CellView>)
    requires
        forall|i: int| 0 <= i < cells.len() ==> (#[trigger] cells[i]).style == plain_style(),
    ensures
        styled_row(cells) == plain_cells(cells),
        style_after(cells) == plain_style(),
    decreases cells.len(),
{
    plain_row_cells(cells);
    assert(styled_cells(cells) + Seq::<char>::empty() =~= styled_cells(cells));
}

proof fn plain_row_cells(cells: Seq<CellView>)
    requires
        forall|i: int| 0 <= i < cells.len() ==> (#[trigger] cells[i]).style == plain_style(),
    ensures
        styled_cells(cells) == plain_cells(cells),
        style_after(cells) == plain_style(),
    decreases cells.len(),
{
    if cells.len() > 0 {
        let shorter = cells.drop_last();
        assert(cells[cells.len() - 1] == cells.last());
        assert forall|i: int| 0 <= i < shorter.len() implies (#[trigger] shorter[i]).style
            == plain_style() by {
            assert(shorter[i] == cells[i]);
        }
        plain_row_cells(shorter);
        assert(styled_cells(shorter) + Seq::<char>::empty() =~= styled_cells(shorter));
    }
}

/// A cell more in a row is its character, behind the sequence of its style where that is another
/// than the one in force; a cell that holds nothing shows a blank, and half a wide character
/// nothing.
pub proof fn a_cell_more(cells: Seq<CellView>, cell: CellView)
    ensures
        cell.continuation ==> plain_cells(cells.push(cell)) == plain_cells(cells) && styled_cells(
            cells.push(cell),
        ) == styled_cells(cells),
        !cell.continuation && cell.contents.len() == 0 ==> plain_cells(cells.push(cell))
            == plain_cells(cells).push(' '),
        !cell.continuation && cell.contents.len() > 0 ==> plain_cells(cells.push(cell))
            == plain_cells(cells) + cell.contents,
        !cell.continuation && cell.contents.len() > 0 && cells.len() > 0
            && !cells.last().continuation && cells.last().style == cell.style ==> styled_cells(
            cells.push(cell),
        ) == styled_cells(cells) + cell.contents,
        !cell.continuation && cell.contents.len() > 0 && cells.len() > 0
            && !cells.last().continuation && cells.last().style != cell.style ==> styled_cells(
            cells.push(cell),
        ) == styled_cells(cells) + sgr(cell.style) + cell.contents,
        cells.len() > 0 && !cells.last().continuation && cells.last().style != plain_style()
            ==> styled_row(cells) == styled_cells(cells) + "\u{1b}[0m"@,
{
    reveal_strlit(" ");
    let more = cells.push(cell);
    assert(more.drop_last() =~= cells);
    assert(more.last() == cell);
    assert(" "@ =~= seq![' ']);
    assert(plain_cells(cells) + " "@ =~= plain_cells(cells).push(' '));
    assert(styled_cells(cells) + Seq::<char>::empty() =~= styled_cells(cells));
}

/// The first control sequence in an output is what stands between the escape with a bracket and
/// the bell that ends it.
pub proof fn sequences_end_with_a_bell(payload: Seq<char>, rest: Seq<char>)
    requires
        forall|i: int|
            0 <= i < payload.len() ==> #[trigger] payload[i] != '\u{7}' && payload[i] != '\u{1b}',
    ensures
        ({
            let s = "\u{1b}]"@ + payload + "\u{7}"@ + rest;
            osc_payloads(s, 0).len() > 0 && osc_payloads(s, 0)[0] == payload
        }),
{
    reveal_strlit("\u{1b}]");
    reveal_strlit("\u{7}");
    reveal_strlit("\u{1b}\\");
    let s = "\u{1b}]"@ + payload + "\u{7}"@ + rest;
    let n = payload.len() as int;
    let st = "\u{1b}\\"@;
    assert(s.subrange(0, 2) =~= "\u{1b}]"@);
    position_from_is(s, "\u{1b}]"@, 0, 0);
    assert forall|i: int| 2 <= i < n + 2 implies s[i] != '\u{7}' by {
        assert(s[i] == payload[i - 2]);
    }
    assert(s[n + 2] == '\u{7}');
    char_position_from_is(s, '\u{7}', 2, n + 2);
    position_from_is_first(s, st, 2);
    match position_from(s, st, 2) {
        Some(p) => {
            assert(s.subrange(p, p + 2)[0] == s[p]);
            if p < n + 2 {
                assert(s[p] == payload[p - 2]);
            }
            assert(p != n + 2);
        },
        None => {},
    }
    assert(s.subrange(2, n + 2) =~= payload);
}

/// A notice of a program is its text, and a title with a text is both, with a colon between.
pub proof fn programs_give_notices(a: Seq<char>, b: Seq<char>)
    requires
        is_field(a),
        is_field(b),
        lowered(a) != "notify"@,
        lowered(a) != "notification"@,
        !is_numeric(a),
        !(a.len() > 0 && a[0] == '4'),
    ensures
        osc_message("9;"@ + a) == Some(a),
        osc_message("99;"@ + a) == Some(a),
        osc_message("777;notify;"@ + a + ";"@ + b) == Some(a + ": "@ + b),
{
    notice_literals();
    one_field(a);
    let p9 = "9;"@ + a;
    assert(p9.skip(2) =~= a);
    assert(p9.subrange(0, 2) =~= "9;"@);
    if begins(p9, "9;4"@) {
        assert(p9.subrange(0, 3)[2] == p9[2]);
        assert(p9[2] == a[0]);
    }
    let p99 = "99;"@ + a;
    assert(p99.skip(3) =~= a);
    assert(p99.subrange(0, 3) =~= "99;"@);
    assert(p99[1] == '9');
    if begins(p99, "9;4"@) {
        assert(p99.subrange(0, 3)[1] == p99[1]);
    }
    if begins(p99, "9;"@) {
        assert(p99.subrange(0, 2)[1] == p99[1]);
    }
    let p777 = "777;notify;"@ + a + ";"@ + b;
    let body = "notify;"@ + a + ";"@ + b;
    assert(p777.skip(4) =~= body);
    assert(p777.subrange(0, 4) =~= "777;"@);
    assert(p777[0] == '7');
    if begins(p777, "9;4"@) {
        assert(p777.subrange(0, 3)[0] == p777[0]);
    }
    if begins(p777, "9;"@) {
        assert(p777.subrange(0, 2)[0] == p777[0]);
    }
    if begins(p777, "99;"@) {
        assert(p777.subrange(0, 3)[0] == p777[0]);
    }
    notify_fields(a, b);
}

/// A text that is one field of a sequence: not empty, without a semicolon, and without white
/// space around it.
pub open spec fn is_field(s: Seq<char>) -> bool {
    &&& s.len() > 0
    &&& !is_white(s[0])
    &&& !is_white(s.last())
    &&& forall|i: int| 0 <= i < s.len() ==> #[trigger] s[i] != ';'
}

proof fn notice_literals()
    ensures
        "9;"@ == seq!['9', ';'],
        "9;4"@ == seq!['9', ';', '4'],
        "99;"@ == seq!['9', '9', ';'],
        "777;"@ == seq!['7', '7', '7', ';'],
        "777;notify;"@ == seq!['7', '7', '7', ';', 'n', 'o', 't', 'i', 'f', 'y', ';'],
        "notify;"@ == seq!['n', 'o', 't', 'i', 'f', 'y', ';'],
        "notify"@ == seq!['n', 'o', 't', 'i', 'f', 'y'],
        ";"@ == seq![';'],
{
    reveal_strlit("9;");
    reveal_strlit("9;4");
    reveal_strlit("99;");
    reveal_strlit("777;");
    reveal_strlit("777;notify;");
    reveal_strlit("notify;");
    reveal_strlit("notify");
    reveal_strlit(";");
    assert("9;"@ =~= seq!['9', ';']);
    assert("9;4"@ =~= seq!['9', ';', '4']);
    assert("99;"@ =~= seq!['9', '9', ';']);
    assert("777;"@ =~= seq!['7', '7', '7', ';']);
    assert("777;notify;"@ =~= seq!['7', '7', '7', ';', 'n', 'o', 't', 'i', 'f', 'y', ';']);
    assert("notify;"@ =~= seq!['n', 'o', 't', 'i', 'f', 'y', ';']);
    assert("notify"@ =~= seq!['n', 'o', 't', 'i', 'f', 'y']);
    assert(";"@ =~= seq![';']);
}

proof fn one_field(a: Seq<char>)
    requires
        is_field(a),
    ensures
        parts(a, ';') == seq![a],
        filled(parts(a, ';')) == seq![a],
{
    char_position_from_is_first(a, ';', 0);
    assert(char_position(a, ';') is None) by {
        if char_position(a, ';') is Some {
            let p = char_position(a, ';')->0;
            assert(a[p] == ';');
        }
    }
    assert(parts(a, ';') =~= seq![a]);
    trimmed_of_solid(a);
    let list = seq![a];
    assert(list.drop_last() =~= Seq::empty());
    assert(filled(list.drop_last()) =~= Seq::empty());
    assert(filled(list) =~= seq![a]);
}

proof fn field_before(a: Seq<char>, rest: Seq<char>)
    requires
        is_field(a),
    ensures
        parts(a + ";"@ + rest, ';') == seq![a] + parts(rest, ';'),
{
    notice_literals();
    let s = a + ";"@ + rest;
    assert forall|i: int| 0 <= i < a.len() implies s[i] != ';' by {
        assert(s[i] == a[i]);
    }
    assert(s[a.len() as int] == ';');
    char_position_from_is(s, ';', 0, a.len() as int);
    assert(s.take(a.len() as int) =~= a);
    assert(s.skip(a.len() as int + 1) =~= rest);
}

proof fn notify_fields(a: Seq<char>, b: Seq<char>)
    requires
        is_field(a),
        is_field(b),
        !is_numeric(a),
    ensures
        notification_text("notify;"@ + a + ";"@ + b) == Some(a + ": "@ + b),
{
    notice_literals();
    let n = "notify"@;
    assert(is_field(n));
    one_field(b);
    field_before(a, b);
    let rest = a + ";"@ + b;
    field_before(n, rest);
    let body = "notify;"@ + a + ";"@ + b;
    assert(body =~= n + ";"@ + rest);
    let list = parts(body, ';');
    assert(list =~= seq![n, a, b]);
    trimmed_of_solid(n);
    trimmed_of_solid(a);
    trimmed_of_solid(b);
    let l2 = list.drop_last();
    let l1 = l2.drop_last();
    let l0 = l1.drop_last();
    assert(l0.len() == 0);
    assert(filled(l0) =~= Seq::empty());
    assert(l1.last() == n && l2.last() == a && list.last() == b);
    assert(filled(l1) =~= seq![n]);
    assert(filled(l2) =~= seq![n, a]);
    assert(filled(list) =~= seq![n, a, b]);
    assert(lowered(n) =~= n);
    assert(filled(list).skip(1) =~= seq![a, b]);
}

/// A window title is what follows the number of its sequence, up to its two hundred and
/// fifty-sixth character; an empty one is none.
pub proof fn programs_set_titles(t: Seq<char>)
    requires
        t.len() > 0 ==> !is_white(t[0]) && !is_white(t.last()),
    ensures
        0 < t.len() <= 256 ==> osc_title_text("0;"@ + t) == Some(t) && osc_title_text("2;"@ + t)
            == Some(t),
        t.len() > 256 ==> osc_title_text("0;"@ + t) == Some(t.take(256)) && osc_title_text(
            "2;"@ + t,
        ) == Some(t.take(256)),
        t.len() == 0 ==> osc_title_text("0;"@ + t) is None && osc_title_text("2;"@ + t) is None,
        osc_title_text("1;"@ + t) is None,
{
    reveal_strlit("0;");
    reveal_strlit("1;");
    reveal_strlit("2;");
    trimmed_of_solid(t);
    let zero = "0;"@ + t;
    let one = "1;"@ + t;
    let two = "2;"@ + t;
    assert(zero.subrange(0, 2) =~= "0;"@);
    assert(zero.skip(2) =~= t);
    assert(two.subrange(0, 2) =~= "2;"@);
    assert(two.skip(2) =~= t);
    assert(two[0] == '2' && one[0] == '1');
    if begins(two, "0;"@) {
        assert(two.subrange(0, 2)[0] == two[0]);
    }
    if begins(one, "0;"@) {
        assert(one.subrange(0, 2)[0] == one[0]);
    }
    if begins(one, "2;"@) {
        assert(one.subrange(0, 2)[0] == one[0]);
    }
}

/// Progress is reported with a percentage, of a hundred at most, or taken away.
pub proof fn programs_report_progress(n: nat)
    requires
        n <= 65535,
    ensures
        n <= 100 ==> osc_progress("9;4;1;"@ + decimal(n)) == Some(Some(n as int)),
        n > 100 ==> osc_progress("9;4;1;"@ + decimal(n)) == Some(Some(100int)),
        osc_progress("9;4;0"@) == Some(None::<int>),
        osc_progress("9;4;3"@) == Some(None::<int>),
        osc_progress("9;4"@) == Some(None::<int>),
{
    reveal_strlit("9;4;1;");
    reveal_strlit("9;4;0");
    reveal_strlit("9;4;3");
    reveal_strlit("9;4");
    reveal_strlit(";");
    reveal_strlit("0");
    reveal_strlit("1");
    reveal_strlit("2");
    reveal_strlit("3");
    reveal_strlit("4");
    let d = decimal(n);
    decimal_is_a_field(n);
    decimal_round_trip(n);
    let p = "9;4;1;"@ + d;
    assert(p.subrange(0, 3) =~= "9;4"@);
    let rest = p.skip(3);
    assert(rest.subrange(0, 1) =~= ";"@);
    let body = "1"@ + ";"@ + d;
    assert(rest.skip(1) =~= body);
    assert("1"@ =~= seq!['1']);
    assert(is_field("1"@));
    field_before("1"@, d);
    one_field(d);
    let list = parts(body, ';');
    assert(list =~= seq!["1"@, d]);
    assert(body[0] == '1');
    assert(body.last() == d.last());
    trimmed_of_solid(body);
    trimmed_of_solid("1"@);
    trimmed_of_solid(d);
    let l1 = list.drop_last();
    let l0 = l1.drop_last();
    assert(l0.len() == 0);
    assert(filled(l0) =~= Seq::empty());
    assert(l1.last() == "1"@ && list.last() == d);
    assert(filled(l1) =~= seq!["1"@]);
    assert(filled(list) =~= seq!["1"@, d]);
    assert(osc_progress(p) == Some(Some(crate::daemon::osc::percentage(d))));
    assert("9;4;0"@ =~= "9;4"@ + ";"@ + "0"@);
    assert("9;4;3"@ =~= "9;4"@ + ";"@ + "3"@);
    plain_state("9;4;0"@, "0"@);
    plain_state("9;4;3"@, "3"@);
    let bare = "9;4"@;
    assert(bare.subrange(0, 3) =~= bare);
    assert(bare.skip(3) =~= Seq::empty());
    assert(trimmed(Seq::<char>::empty()) =~= Seq::empty());
}

proof fn plain_state(p: Seq<char>, state: Seq<char>)
    requires
        state == "0"@ || state == "3"@,
        p == "9;4"@ + ";"@ + state,
    ensures
        osc_progress(p) == Some(None::<int>),
{
    reveal_strlit("9;4");
    reveal_strlit(";");
    reveal_strlit("0");
    reveal_strlit("1");
    reveal_strlit("3");
    assert("0"@[0] != "1"@[0] && "3"@[0] != "1"@[0]);
    assert(p.subrange(0, 3) =~= "9;4"@);
    let rest = p.skip(3);
    assert(rest.subrange(0, 1) =~= ";"@);
    assert(rest.skip(1) =~= state);
    assert(is_field(state));
    trimmed_of_solid(state);
    one_field(state);
}

proof fn decimal_is_a_field(n: nat)
    ensures
        is_field(decimal(n)),
        forall|i: int| 0 <= i < decimal(n).len() ==> '0' <= #[trigger] decimal(n)[i] <= '9',
    decreases n,
{
    if n >= 10 {
        decimal_is_a_field(n / 10);
        let d = decimal(n / 10);
        let last = decimal(n).last();
        assert(decimal(n) =~= d.push(last));
        assert forall|i: int| 0 <= i < decimal(n).len() implies '0' <= #[trigger] decimal(n)[i]
            <= '9' by {
            if i < d.len() {
                assert(decimal(n)[i] == d[i]);
            }
        }
    }
}

/// A pane is never smaller than two rows and two columns, and a viewer only ever makes it smaller:
/// it has the rows and columns of the layout or of the viewer, whichever are fewer.
pub proof fn sizes_of_panes(layout: PaneSize, view: PaneSize)
    ensures
        effective(layout, None) == layout,
        2 <= layout.rows <= view.rows ==> effective(layout, Some(view)).rows == layout.rows,
        2 <= view.rows <= layout.rows ==> effective(layout, Some(view)).rows == view.rows,
        2 <= layout.cols <= view.cols ==> effective(layout, Some(view)).cols == layout.cols,
        2 <= view.cols <= layout.cols ==> effective(layout, Some(view)).cols == view.cols,
        view.rows < 2 ==> effective(layout, Some(view)).rows == 2,
        view.cols < 2 ==> effective(layout, Some(view)).cols == 2,
        layout.rows >= 2 ==> sane(layout).rows == layout.rows,
        layout.cols >= 2 ==> sane(layout).cols == layout.cols,
        layout.rows < 2 ==> sane(layout).rows == 2,
        layout.cols < 2 ==> sane(layout).cols == 2,
        terminal_size(layout).rows == sane(layout).rows,
        terminal_size(layout).cols <= sane(layout).cols,
{
}

/// The leases that stay are those of other viewers, or those that still run, in their order.
pub proof fn leases_that_stay(overrides: Seq<ViewOverride>, viewer: Seq<char>, now: u64)
    ensures
        without_viewer(overrides, viewer) == overrides.filter(
            |v: ViewOverride| v.viewer_id@ != viewer,
        ),
        live_only(overrides, now) == overrides.filter(|v: ViewOverride| v.expires_at > now),
    decreases overrides.len(),
{
    reveal(Seq::filter);
    if overrides.len() > 0 {
        leases_that_stay(overrides.drop_last(), viewer, now);
    }
}

/// What a screen says is noted in its pane: the cursor, the size and what the program wants to be
/// told of the mouse. The wheel scrolls the alternate screen only while the program runs on it.
pub proof fn screens_are_noted(
    before: Pane,
    after: Pane,
    facts: ScreenFacts,
    alternate_scroll: bool,
)
    requires
        screen_noted(before, after, facts, alternate_scroll),
    ensures
        after.cursor_row == Some(facts.cursor_row),
        after.cursor_col == Some(facts.cursor_col),
        after.screen_rows == Some(facts.rows),
        after.screen_cols == Some(facts.cols),
        after.alternate_scroll_mode <==> before.status == PaneStatus::Running && alternate_scroll
            && facts.alternate_screen,
        facts.mouse_mode == MouseProtocolMode::AnyMotion ==> after.mouse_protocol_mode@
            == "any-motion"@,
        facts.mouse_mode == MouseProtocolMode::Off ==> after.mouse_protocol_mode@ == ""@,
        facts.mouse_encoding == MouseProtocolEncoding::Sgr ==> after.mouse_protocol_encoding@
            == "sgr"@,
        after.id == before.id,
        after.output == before.output,
        after.agent_status == before.agent_status,
        after.status == before.status,
{
}

/// The last notice of a read asks for attention and is put up in blue, unless it only says that
/// input is awaited or that the turn is over.
pub proof fn notices_ask_for_attention(
    before: Pane,
    after: Pane,
    messages: Seq<Seq<char>>,
    now: u64,
)
    requires
        attention_noted(before, after, messages, now),
    ensures
        messages.len() == 0 ==> after == before,
        messages.len() > 0 && (has_text(lowered(messages.last()), "waiting for your input"@)
            || lowered(messages.last()) == "turn complete"@) ==> after == before,
        messages.len() > 0 && !is_idle_notice(messages.last()) && !is_completion_notice(
            messages.last(),
        ) ==> {
            &&& after.agent_status == AgentStatus::Attention
            &&& after.agent_status_pinned
            &&& opt_text(after.notification_message) == Some(messages.last())
            &&& opt_text(after.notification_color) == Some("blue"@)
        },
        after.id == before.id,
        after.output == before.output,
{
}

/// The status that is read from a screen is taken over, and the time of it only where it changed.
pub proof fn inferred_statuses_are_taken(pane: Pane, status: AgentStatus, pinned: bool, now: u64)
    ensures
        with_inferred(pane, status, pinned, now).agent_status == status,
        with_inferred(pane, status, pinned, now).agent_status_pinned == pinned,
        with_inferred(pane, status, pinned, now).updated_at == now,
        status == pane.agent_status && pinned == pane.agent_status_pinned ==> with_inferred(
            pane,
            status,
            pinned,
            now,
        ).agent_status_at == pane.agent_status_at,
        status != pane.agent_status ==> with_inferred(pane, status, pinned, now).agent_status_at
            == now,
        with_inferred(pane, status, pinned, now).output == pane.output,
        with_inferred(pane, status, pinned, now).notification_message == pane.notification_message,
{
}

/// What a read changed in a running pane goes into its record; the texts, the title and the tabs
/// of the record stay.
pub proof fn reads_are_merged(pane: Pane, light: Pane)
    ensures
        ({
            let m = light_merged(pane, light);
            &&& m.agent_status == light.agent_status
            &&& m.agent_status_pinned == light.agent_status_pinned
            &&& m.notification_message == light.notification_message
            &&& m.notification_color == light.notification_color
            &&& m.progress == light.progress
            &&& m.status == light.status
            &&& m.pid == light.pid
            &&& m.cursor_row == light.cursor_row
            &&& m.cursor_col == light.cursor_col
            &&& m.updated_at == light.updated_at
            &&& m.id == pane.id
            &&& m.title == pane.title
            &&& m.command == pane.command
            &&& m.output == pane.output
            &&& m.scrollback == pane.scrollback
            &&& m.tabs == pane.tabs
            &&& m.metadata == pane.metadata
            &&& m.exit_code == pane.exit_code
        }),
{
}

/// The key of a running pane is its id, with two colons and its tab behind it where it has one.
pub proof fn keys_name_tabs(pane: Pane, tab: Seq<char>)
    ensures
        pane.active_tab is None ==> active_key(pane) == pane.id@,
        pane.active_tab matches Some(t) ==> active_key(pane) == pane.id@ + "::"@ + t@,
        key_tab(pane.id@, pane.id@ + "::"@ + tab) == Some(tab),
{
    runtime_key_round_trip(pane.id@, tab);
}

/// A pane whose process starts runs, without an exit code, progress or texts of its last run.
pub proof fn starting_a_pane(
    before: Pane,
    after: Pane,
    pid: Option<u32>,
    inferred: AgentStatus,
    now: u64,
)
    requires
        started(before, after, pid, inferred, now),
    ensures
        after.status == PaneStatus::Running,
        after.exit_code is None,
        after.pid == pid,
        after.progress is None,
        after.output@.len() == 0,
        after.scrollback@.len() == 0,
        !after.alternate_scroll_mode,
        after.agent_status == inferred,
        !after.agent_status_pinned,
        after.agent_status_at == now,
        after.updated_at == now,
        after.id == before.id,
        after.command == before.command,
        after.title == before.title,
        after.tabs == before.tabs,
        after.metadata == before.metadata,
{
}

/// A pane that is read back does not run: it has exited where it had before, and else it waits to
/// run again, without a process. What it showed stays.
pub proof fn reading_a_pane_back(pane: Pane)
    ensures
        pane.status == PaneStatus::Exited ==> read_back(pane).status == PaneStatus::Exited,
        pane.status != PaneStatus::Exited ==> read_back(pane).status == PaneStatus::Restored
            && read_back(pane).pid is None,
        read_back(pane).view_size is None,
        !read_back(pane).alternate_scroll_mode,
        read_back(pane).output == pane.output,
        read_back(pane).scrollback == pane.scrollback,
        read_back(pane).agent_status == pane.agent_status,
        read_back(pane).title == pane.title,
        read_back(pane).exit_code == pane.exit_code,
{
}

/// The process of a pane finds the session, the workspace, the pane and the daemon's files in its
/// environment.
pub proof fn panes_find_their_place(
    session: Seq<char>,
    workspace: Seq<char>,
    pane: Seq<char>,
    paths: DaemonPaths,
)
    ensures
        ({
            let env = pane_env_pairs(session, workspace, pane, paths);
            &&& env.contains(("VMUX_SESSION"@, session))
            &&& env.contains(("VMUX_WORKSPACE_ID"@, workspace))
            &&& env.contains(("VMUX_PANE_ID"@, pane))
            &&& env.contains(("VMUX_SURFACE_ID"@, pane))
            &&& env.contains(("VMUX_SOCKET_PATH"@, paths.socket@))
            &&& env.contains(("VMUX_PID_PATH"@, paths.pid@))
            &&& env.contains(("VMUX_LOG_PATH"@, paths.log@))
            &&& env.contains(("VMUX_STATE_PATH"@, paths.state@))
            &&& env.contains(("LMUX_SESSION"@, session))
            &&& env.contains(("LMUX_WORKSPACE_ID"@, workspace))
            &&& env.contains(("LMUX_PANE_ID"@, pane))
            &&& env.contains(("LMUX_SURFACE_ID"@, pane))
            &&& env.contains(("LMUX_SOCKET_PATH"@, paths.socket@))
            &&& env.len() == 13
        }),
{
    let env = pane_env_pairs(session, workspace, pane, paths);
    assert(env[0] == ("VMUX_SESSION"@, session));
    assert(env[1] == ("VMUX_WORKSPACE_ID"@, workspace));
    assert(env[2] == ("VMUX_PANE_ID"@, pane));
    assert(env[3] == ("VMUX_SURFACE_ID"@, pane));
    assert(env[4] == ("VMUX_SOCKET_PATH"@, paths.socket@));
    assert(env[5] == ("VMUX_PID_PATH"@, paths.pid@));
    assert(env[6] == ("VMUX_LOG_PATH"@, paths.log@));
    assert(env[7] == ("VMUX_STATE_PATH"@, paths.state@));
    assert(env[8] == ("LMUX_SESSION"@, session));
    assert(env[9] == ("LMUX_WORKSPACE_ID"@, workspace));
    assert(env[10] == ("LMUX_PANE_ID"@, pane));
    assert(env[11] == ("LMUX_SURFACE_ID"@, pane));
    assert(env[12] == ("LMUX_SOCKET_PATH"@, paths.socket@));
}

} // verus!
