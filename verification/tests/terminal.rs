//! Terminal modes and what is read off a screen.

use vmux::daemon::live::{
    live_screen, new_runtime, resize_runtime, take_output, PaneRuntime, ScreenFacts,
};
use vmux::daemon::capture::{clear_runtime, screen_facts};
use vmux::daemon::screen::{
    alternate_scroll_active, cells_ansi, drawn_screen, drawn_scrollback, mode_replay_of,
    parser_history_rows, push_sgr,
    row_contents_ansi, screen_contents_ansi, screen_contents_formatted,
    screen_scrollback_formatted, Color, ScreenCell, SgrStyle,
};
use vmux::daemon::terminal::{
    mode_replay, update_pane_terminal_modes, MouseProtocolEncoding, MouseProtocolMode,
    TerminalModeScanState, TerminalModeTracker, CSI_CAP,
};
use vmux::model::{PaneSize, Pane, PaneStatus};

fn fresh() -> PaneRuntime {
    new_runtime(1, Pane::new("pane-1".to_string(), "sh".to_string(), 1), 16_000, 1)
}

fn write(runtime: &mut PaneRuntime, bytes: &[u8]) {
    assert!(take_output(runtime, 1, bytes).is_some());
}

#[test]
fn terminal_mode_tracker_handles_split_alternate_scroll_sequences() {
    let mut modes = TerminalModeTracker::default();

    modes.process(b"plain\x1b[?100");
    assert!(!modes.alternate_scroll);
    modes.process(b"7h");
    assert!(modes.alternate_scroll);

    // Several private modes may stand in one sequence.
    modes.process(b"\x1b[?25;1007l");
    assert!(!modes.alternate_scroll);
    modes.process(b"\x1b[?1000;1007h");
    assert!(modes.alternate_scroll);

    // Text that looks alike, and other sequences, change nothing.
    modes.process(b"?1007l\x1b[31m\x1b[?1006l");
    assert!(modes.alternate_scroll);
}

#[test]
fn the_same_bytes_in_any_pieces_leave_the_same_modes() {
    let bytes = b"a\x1b[?1007h\x1b[?25;1007lz\x1b[?1;1007h\x1bc";
    let mut whole = TerminalModeTracker::default();
    whole.process(bytes);
    for cut in 0..bytes.len() {
        let mut parts = TerminalModeTracker::default();
        parts.process(&bytes[..cut]);
        parts.process(&bytes[cut..]);
        assert_eq!(parts.alternate_scroll, whole.alternate_scroll, "cut at {cut}");
        assert_eq!(parts.state, whole.state);
        assert_eq!(parts.csi, whole.csi);
    }
}

#[test]
fn a_sequence_without_end_is_given_up() {
    let mut modes = TerminalModeTracker::default();
    modes.process(b"\x1b[?");
    modes.process(&vec![b'1'; 500]);
    assert!(modes.csi.len() <= CSI_CAP);
    // What follows is read as plain text until the next escape.
    modes.process(b"\x1b[?1007h");
    assert!(modes.alternate_scroll);
    assert_eq!(modes.state, TerminalModeScanState::Ground);
}

#[test]
fn alternate_scroll_is_effective_only_on_the_alternate_screen() {
    let mut modes = TerminalModeTracker::default();
    let mut parser = vt100::Parser::new(24, 80, 100);

    modes.process(b"\x1b[?1007h");
    assert!(!alternate_scroll_active(
        &PaneStatus::Running,
        &modes,
        parser.screen()
    ));

    parser.process(b"\x1b[?1049h");
    assert!(alternate_scroll_active(
        &PaneStatus::Running,
        &modes,
        parser.screen()
    ));
    // The screen of a pane that was ended by force may still be the alternate one.
    assert!(!alternate_scroll_active(
        &PaneStatus::Exited,
        &modes,
        parser.screen()
    ));

    parser.process(b"\x1b[?1049l");
    assert!(!alternate_scroll_active(
        &PaneStatus::Running,
        &modes,
        parser.screen()
    ));
}

#[test]
fn clearing_parser_preserves_fullscreen_input_modes() {
    let mut runtime = fresh();
    write(
        &mut runtime,
        b"\x1b[?1049h\x1b[?1h\x1b[?1000h\x1b[?1006h\x1b[?2004h\x1b[?25lvisible",
    );
    let mut modes = TerminalModeTracker::default();
    modes.process(b"\x1b[?1007h");

    clear_runtime(&mut runtime);
    let screen = live_screen(&runtime);
    assert!(screen.contents().is_empty());
    assert!(screen.alternate_screen());
    assert!(screen.application_cursor());
    assert!(screen.bracketed_paste());
    assert!(screen.hide_cursor());
    assert_eq!(
        screen.mouse_protocol_mode(),
        vt100::MouseProtocolMode::PressRelease
    );
    assert_eq!(
        screen.mouse_protocol_encoding(),
        vt100::MouseProtocolEncoding::Sgr
    );
    assert!(alternate_scroll_active(
        &PaneStatus::Running,
        &modes,
        screen
    ));
}

#[test]
fn mode_replay_puts_its_parts_in_order() {
    assert_eq!(mode_replay(false, b"", false), b"");
    assert_eq!(mode_replay(true, b"X", true), b"\x1b[?1049hX\x1b[?25l");
    assert_eq!(mode_replay(false, b"X", true), b"X\x1b[?25l");
    assert_eq!(mode_replay(true, b"", false), b"\x1b[?1049h");
}

#[test]
fn parser_history_rows_returns_complete_lines() {
    let mut parser = vt100::Parser::new(4, 30, 100);
    for i in 1..=20 {
        parser.process(format!("full-line-{i}\r\n").as_bytes());
    }
    let history = parser_history_rows(parser.screen_mut(), 50, false);
    assert!(history.iter().any(|r| r == "full-line-1"), "{history:?}");
    // Whole rows, never the end of one.
    assert!(history
        .iter()
        .all(|r| r.is_empty() || r.starts_with("full-line-")));
    // The place that is shown is put back.
    assert_eq!(parser.screen().scrollback(), 0);
}

#[test]
fn parser_history_rows_caps_and_orders() {
    let mut parser = vt100::Parser::new(4, 30, 100);
    for i in 1..=60 {
        parser.process(format!("l{i}\r\n").as_bytes());
    }
    let history = parser_history_rows(parser.screen_mut(), 10, false);
    assert_eq!(history.len(), 10);
    // The newest of the history, the oldest of it first.
    let nums: Vec<i32> = history
        .iter()
        .map(|r| r.trim_start_matches('l').parse().unwrap())
        .collect();
    let mut sorted = nums.clone();
    sorted.sort_unstable();
    assert_eq!(nums, sorted);
}

#[test]
fn history_rows_are_none_where_nothing_scrolled_off() {
    let mut parser = vt100::Parser::new(4, 30, 100);
    parser.process(b"only");
    assert!(parser_history_rows(parser.screen_mut(), 10, false).is_empty());
    let mut busy = vt100::Parser::new(2, 10, 100);
    busy.process(b"a\r\nb\r\nc\r\nd");
    assert!(parser_history_rows(busy.screen_mut(), 0, false).is_empty());
    assert_eq!(parser_history_rows(busy.screen_mut(), 10, false), ["a", "b"]);
}

#[test]
fn history_rows_keep_their_styles_when_asked() {
    let mut parser = vt100::Parser::new(2, 10, 100);
    parser.process(b"\x1b[31mred\x1b[0m\r\nb\r\nc");
    let history = parser_history_rows(parser.screen_mut(), 10, true);
    assert_eq!(history.len(), 1);
    assert!(history[0].starts_with("\x1b[0;31mred"), "{history:?}");
}

#[test]
fn screen_contents_ansi_preserves_colors_and_resets_per_row() {
    let mut parser = vt100::Parser::new(4, 20, 0);
    parser.process(b"\x1b[31mred\x1b[0m plain\r\n\x1b[1;38;5;46mbold-green\x1b[0m\r\nno-style");
    let out = screen_contents_ansi(parser.screen());
    let rows: Vec<&str> = out.split('\n').collect();
    assert_eq!(rows.len(), 4);

    // "red" in red, then back to no style for " plain".
    assert!(rows[0].contains("\x1b[0;31mred"), "row0 = {:?}", rows[0]);
    assert!(rows[0].contains("\x1b[0m plain"), "row0 = {:?}", rows[0]);
    // A row with a style ends without one.
    assert!(rows[0].trim_end().ends_with('n') || rows[0].ends_with("\x1b[0m"));

    // Bold and a colour of the palette.
    assert!(
        rows[1].contains("\x1b[0;1;38;5;46mbold-green"),
        "row1 = {:?}",
        rows[1]
    );

    // No escapes where nothing has a style.
    assert!(!rows[2].contains('\x1b'), "row2 = {:?}", rows[2]);
    assert!(rows[2].starts_with("no-style"));
}

#[test]
fn screen_contents_ansi_plain_screen_matches_contents() {
    let mut parser = vt100::Parser::new(2, 10, 0);
    parser.process(b"hello");
    let ansi = screen_contents_ansi(parser.screen());
    // Without a style anywhere only padding sets it apart from the contents.
    assert!(!ansi.contains('\x1b'));
    assert!(ansi.starts_with("hello"));
}

#[test]
fn every_attribute_has_its_code() {
    let plain = SgrStyle {
        fg: Color::Plain,
        bg: Color::Plain,
        bold: false,
        italic: false,
        underline: false,
        inverse: false,
    };
    let mut out = String::new();
    push_sgr(&mut out, &plain);
    assert_eq!(out, "\x1b[0m");
    let mut out = String::new();
    push_sgr(
        &mut out,
        &SgrStyle {
            fg: Color::Idx(9),
            bg: Color::Idx(3),
            bold: true,
            italic: true,
            underline: true,
            inverse: true,
        },
    );
    assert_eq!(out, "\x1b[0;1;3;4;7;91;43m");
    let mut out = String::new();
    push_sgr(
        &mut out,
        &SgrStyle {
            fg: Color::Rgb(1, 2, 3),
            bg: Color::Idx(200),
            ..plain
        },
    );
    assert_eq!(out, "\x1b[0;38;2;1;2;3;48;5;200m");
}

#[test]
fn the_second_half_of_a_wide_letter_is_left_out() {
    let mut parser = vt100::Parser::new(1, 6, 0);
    parser.process("界x".as_bytes());
    let row = row_contents_ansi(parser.screen(), 0);
    assert!(row.starts_with("界x"), "{row:?}");
    let style = SgrStyle {
        fg: Color::Plain,
        bg: Color::Plain,
        bold: false,
        italic: false,
        underline: false,
        inverse: false,
    };
    let cells = vec![
        ScreenCell { contents: "界".to_string(), continuation: false, style },
        ScreenCell { contents: String::new(), continuation: true, style },
        ScreenCell { contents: String::new(), continuation: false, style },
    ];
    assert_eq!(cells_ansi(&cells), "界 ");
}

#[test]
fn screen_scrollback_formatted_captures_styled_history_in_order() {
    // A small screen, so that most lines scroll off.
    let mut parser = vt100::Parser::new(2, 40, 100);
    parser.process(b"\x1b[31mred-oldest\x1b[m\r\nmid-one\r\nmid-two\r\nnewest\r\n");

    let formatted = screen_scrollback_formatted(parser.screen_mut(), 500);

    assert!(
        formatted.contains('\u{1b}'),
        "expected SGR escapes: {formatted:?}"
    );
    assert!(formatted.contains("red-oldest"));
    // The oldest first.
    let red = formatted.find("red-oldest").unwrap();
    let newest = formatted.find("newest").unwrap();
    assert!(
        red < newest,
        "oldest row must precede newest: {formatted:?}"
    );
    // The place that is shown is put back.
    assert_eq!(parser.screen().scrollback(), 0);
}

#[test]
fn screen_scrollback_formatted_caps_history_rows() {
    let mut parser = vt100::Parser::new(2, 40, 100);
    for i in 0..40 {
        parser.process(format!("line-{i}\r\n").as_bytes());
    }

    let formatted = screen_scrollback_formatted(parser.screen_mut(), 3);

    // No more rows of the history than the cap, and the two on the screen.
    assert!(
        formatted.lines().count() <= 3 + 2,
        "row cap not honored: {} lines",
        formatted.lines().count()
    );
}

#[test]
fn formatted_contents_carry_the_styles() {
    let mut parser = vt100::Parser::new(2, 20, 0);
    parser.process(b"\x1b[32mgreen\x1b[m");
    let formatted = screen_contents_formatted(parser.screen());
    assert!(formatted.contains("green"));
    assert!(formatted.contains("\x1b[32m"), "{formatted:?}");
}

#[test]
fn facts_are_read_off_a_screen() {
    let mut parser = vt100::Parser::new(5, 12, 0);
    parser.process(b"\x1b[?1049h\x1b[?1002h\x1b[?1006hab\r\nc");
    assert_eq!(
        screen_facts(parser.screen()),
        ScreenFacts {
            cursor_row: 1,
            cursor_col: 1,
            rows: 5,
            cols: 12,
            mouse_mode: MouseProtocolMode::ButtonMotion,
            mouse_encoding: MouseProtocolEncoding::Sgr,
            alternate_screen: true,
        }
    );
}

#[test]
fn mouse_modes_are_named_in_the_record() {
    let mut pane = Pane::new("pane-1".to_string(), "sh".to_string(), 1);
    let modes = [
        (MouseProtocolMode::Off, ""),
        (MouseProtocolMode::Press, "press"),
        (MouseProtocolMode::PressRelease, "press-release"),
        (MouseProtocolMode::ButtonMotion, "button-motion"),
        (MouseProtocolMode::AnyMotion, "any-motion"),
    ];
    for (mode, name) in modes {
        update_pane_terminal_modes(&mut pane, mode, MouseProtocolEncoding::Utf8);
        assert_eq!(pane.mouse_protocol_mode, name);
        assert_eq!(pane.mouse_protocol_encoding, "utf8");
    }
    update_pane_terminal_modes(&mut pane, MouseProtocolMode::Off, MouseProtocolEncoding::Default);
    assert_eq!(pane.mouse_protocol_encoding, "");
    update_pane_terminal_modes(&mut pane, MouseProtocolMode::Off, MouseProtocolEncoding::Sgr);
    assert_eq!(pane.mouse_protocol_encoding, "sgr");
}

#[test]
fn what_cannot_be_drawn_is_refused() {
    let mut parser = vt100::Parser::new(2, 40, 100);
    parser.process(b"one\r\ntwo\r\nthree");
    let drawn = drawn_screen(parser.screen()).expect("every row has cells");
    assert_eq!(drawn, "two\nthree");
    let all = drawn_scrollback(parser.screen_mut(), 500).expect("every row has cells");
    assert_eq!(all, "one\ntwo\nthree");
    assert_eq!(parser.screen().scrollback(), 0);
    let mut narrow = vt100::Parser::new(2, 0, 100);
    assert_eq!(drawn_screen(narrow.screen()), None);
    assert_eq!(drawn_scrollback(narrow.screen_mut(), 500), None);
}

#[test]
fn a_fresh_terminal_takes_on_modes() {
    let mut parser = vt100::Parser::new(24, 80, 100);
    parser.process(b"\x1b[?1h\x1b[?25l");
    assert_eq!(mode_replay_of(parser.screen()), [&parser.screen().input_mode_formatted()[..], b"\x1b[?25l"].concat());
    let mut runtime = fresh();
    write(&mut runtime, &mode_replay_of(parser.screen()));
    assert!(live_screen(&runtime).application_cursor());
    assert!(live_screen(&runtime).hide_cursor());
    assert!(!live_screen(&runtime).alternate_screen());
}

#[test]
fn a_narrower_terminal_holds_no_half_of_a_character() {
    let mut runtime = fresh();
    assert!(resize_runtime(&mut runtime, PaneSize { rows: 2, cols: 6 }));
    write(&mut runtime, "abc\u{6f22}x".as_bytes());
    // The wide character begins in the last column that is left.
    assert!(resize_runtime(&mut runtime, PaneSize { rows: 2, cols: 4 }));
    assert_eq!(live_screen(&runtime).size(), (2, 4));
    assert_eq!(live_screen(&runtime).contents(), "abc");
    write(&mut runtime, b"\x1b[1;4Hy");
    assert_eq!(live_screen(&runtime).contents(), "abcy");
    assert!(resize_runtime(&mut runtime, PaneSize { rows: 3, cols: 8 }));
    assert_eq!(live_screen(&runtime).size(), (3, 8));
    assert_eq!(live_screen(&runtime).contents(), "abcy");
}

#[test]
fn a_wide_character_before_the_edge_stays_whole() {
    let mut runtime = fresh();
    assert!(resize_runtime(&mut runtime, PaneSize { rows: 5, cols: 10 }));
    write(&mut runtime, "\x1b[1;8H\u{6f22}".as_bytes());
    // It stands in the last two columns that are left.
    assert!(resize_runtime(&mut runtime, PaneSize { rows: 5, cols: 9 }));
    assert_eq!(live_screen(&runtime).contents(), "       \u{6f22}");
    assert!(resize_runtime(&mut runtime, PaneSize { rows: 5, cols: 12 }));
    write(&mut runtime, "\x1b[1;9H\u{6f22}".as_bytes());
    write(&mut runtime, b"\x1b[1;8Ha");
    write(&mut runtime, b"\x1b[1;1H");
    write(&mut runtime, b"\x1b[9P");
    write(&mut runtime, b"x");
    assert!(live_screen(&runtime).contents().starts_with('x'));
}

#[test]
fn narrowing_keeps_the_rest_on_both_screens() {
    let mut runtime = fresh();
    assert!(resize_runtime(&mut runtime, PaneSize { rows: 4, cols: 10 }));
    write(&mut runtime, "ab\u{6f22}\u{6f22}cd\r\n12345\u{6f22}\x1b[3;4r\x1b[?6h".as_bytes());
    write(&mut runtime, "\x1b[?47h\x1b[1;1H123\u{6f22}\x1b[2;2H\x1b[31m".as_bytes());
    // A sequence that is not over yet.
    write(&mut runtime, b"\x1b[1");
    assert!(resize_runtime(&mut runtime, PaneSize { rows: 4, cols: 4 }));
    let screen = live_screen(&runtime);
    assert!(screen.alternate_screen());
    assert_eq!(screen.contents(), "123");
    assert_eq!(screen.cursor_position(), (1, 1));
    assert_eq!(screen.fgcolor(), vt100::Color::Idx(1));
    assert!(!screen.bold());
    write(&mut runtime, b"mz");
    assert!(live_screen(&runtime).bold());
    assert_eq!(live_screen(&runtime).contents(), "123\n z");
    write(&mut runtime, b"\x1b[?47l");
    assert_eq!(live_screen(&runtime).contents(), "ab\u{6f22}\n1234");
    // The cursor is where it was, and so is the region that it is bound to.
    assert_eq!(live_screen(&runtime).cursor_position(), (2, 0));
    write(&mut runtime, b"\x1b[1;1Hq");
    assert_eq!(live_screen(&runtime).contents(), "ab\u{6f22}\n1234\nq");
}

#[test]
fn narrowing_is_what_it_is_without_wide_characters() {
    let text = b"one two three\r\nfour five six\r\nseven\x1b[2;9H";
    let mut runtime = fresh();
    write(&mut runtime, text);
    assert!(resize_runtime(&mut runtime, PaneSize { rows: 6, cols: 9 }));
    let mut parser = vt100::Parser::new(24, 80, 2000);
    parser.process(text);
    parser.screen_mut().set_size(6, 9);
    let screen = live_screen(&runtime);
    assert_eq!(screen.contents_formatted(), parser.screen().contents_formatted());
    assert_eq!(screen.state_formatted(), parser.screen().state_formatted());
    assert_eq!(screen.cursor_position(), (1, 8));
}

#[test]
fn a_terminal_has_no_more_columns_than_tabs_can_count() {
    let mut runtime = fresh();
    assert!(resize_runtime(&mut runtime, PaneSize { rows: 0, cols: 65_535 }));
    assert_eq!(runtime.size, PaneSize { rows: 2, cols: 65_527 });
    write(&mut runtime, b"\x1b[65535G\t\tx\t\ty");
    assert_eq!(live_screen(&runtime).size(), (2, 65_527));
}
