//! Output of panes: what is kept of it, how it is decoded, what it asks for.

use std::collections::VecDeque;
use vmux::daemon::osc::{
    format_osc_notification, osc_notifications, osc_progress_update, osc_title, osc_window_title,
    scan_osc_events, take_osc_events,
};
use vmux::daemon::output::{
    cap_osc_tail, chunked_line_count, count_newlines, joined_output, push_bounded_output,
    scrollback_limit, trim_output, truncate_on_char_boundary, OSC_TAIL_CAP,
};
use vmux::daemon::stream::decode_utf8_stream;

#[test]
fn trim_output_does_not_split_utf8() {
    assert_eq!(trim_output("ab😀cd".to_string(), 4), "cd");
    assert_eq!(trim_output("ab😀cd".to_string(), 6), "😀cd");
}

#[test]
fn trimming_twice_is_trimming_once() {
    let text = "αβγδ-tail".to_string();
    let small = trim_output(text.clone(), 7);
    assert_eq!(small, "δ-tail");
    assert_eq!(trim_output(trim_output(text, 9), 7), small);
    assert_eq!(trim_output("whole".to_string(), 5), "whole");
    assert_eq!(trim_output("gone".to_string(), 0), "");
}

#[test]
fn a_cut_is_marked() {
    let mut text = "ab😀cd".to_string();
    truncate_on_char_boundary(&mut text, 5);
    assert_eq!(text, "ab…");
    let mut text = "ab😀cd".to_string();
    truncate_on_char_boundary(&mut text, 7);
    assert_eq!(text, "ab…");
    let mut text = "ab😀cdefg".to_string();
    truncate_on_char_boundary(&mut text, 10);
    assert_eq!(text, "ab😀c…");
    assert_eq!(text.len(), 10);
    let mut text = "abcdef".to_string();
    truncate_on_char_boundary(&mut text, 2);
    assert_eq!(text, "ab");
    let mut text = "short".to_string();
    truncate_on_char_boundary(&mut text, 5);
    assert_eq!(text, "short");
}

#[test]
fn scrollback_limit_defaults_and_caps() {
    assert_eq!(scrollback_limit(None), 16_000);
    assert_eq!(scrollback_limit(Some(4096)), 4096);
    assert_eq!(scrollback_limit(Some(2_000_000)), 1_000_000);
}

#[test]
fn push_output_bounds_scrollback_by_bytes() {
    let cap: usize = 16_000;
    let mut output: VecDeque<String> = VecDeque::new();
    let mut output_bytes = 0;
    for _ in 0..1000 {
        push_bounded_output(&mut output, &mut output_bytes, "x".repeat(1000), cap);
    }
    assert!(output_bytes <= cap);
    let joined: String = output.iter().cloned().collect();
    assert_eq!(joined.len(), output_bytes);
    assert!(joined.len() <= cap);
    // The newest chunk stays.
    assert!(output.back().is_some());
    assert_eq!(joined_output(&output), joined);
}

#[test]
fn the_newest_chunk_stays_though_it_is_over_the_budget() {
    let mut output: VecDeque<String> = VecDeque::new();
    let mut bytes = 0;
    push_bounded_output(&mut output, &mut bytes, "old".to_string(), 4);
    push_bounded_output(&mut output, &mut bytes, "0123456789".to_string(), 4);
    assert_eq!(joined_output(&output), "0123456789");
    assert_eq!(bytes, 10);
    push_bounded_output(&mut output, &mut bytes, String::new(), 4);
    assert_eq!(joined_output(&output), "0123456789");
}

#[test]
fn lines_are_counted_across_chunks() {
    let mut output: VecDeque<String> = VecDeque::new();
    assert_eq!(chunked_line_count(&output), 0);
    output.push_back("one\ntw".to_string());
    output.push_back("o\nthree".to_string());
    assert_eq!(chunked_line_count(&output), 3);
    output.push_back("\n".to_string());
    assert_eq!(chunked_line_count(&output), 3);
    assert_eq!(count_newlines("a\nb\n\n"), 3);
    assert_eq!(count_newlines(""), 0);
}

#[test]
fn decode_utf8_stream_carries_split_multibyte_chars() {
    // "é" is 0xC3 0xA9, here in two reads.
    let mut pending = Vec::new();
    let first = decode_utf8_stream(&mut pending, b"ab\xc3");
    assert_eq!(first, "ab");
    assert_eq!(pending, vec![0xc3]);
    let second = decode_utf8_stream(&mut pending, b"\xa9cd");
    assert_eq!(second, "\u{e9}cd");
    assert!(pending.is_empty());
}

#[test]
fn decode_utf8_stream_handles_emoji_across_three_chunks() {
    // "😀" is 0xF0 0x9F 0x98 0x80.
    let mut pending = Vec::new();
    assert_eq!(decode_utf8_stream(&mut pending, b"\xf0\x9f"), "");
    assert_eq!(decode_utf8_stream(&mut pending, b"\x98"), "");
    assert_eq!(decode_utf8_stream(&mut pending, b"\x80!"), "\u{1f600}!");
    assert!(pending.is_empty());
}

#[test]
fn decode_utf8_stream_replaces_genuinely_invalid_bytes() {
    let mut pending = Vec::new();
    let text = decode_utf8_stream(&mut pending, b"a\xffb");
    assert!(text.starts_with('a'));
    assert!(text.ends_with('b'));
    assert!(pending.is_empty());
}

#[test]
fn a_broken_letter_in_the_middle_becomes_a_mark() {
    let mut pending = Vec::new();
    assert_eq!(decode_utf8_stream(&mut pending, b"a\xffb"), "a\u{fffd}b");
    let text = "né 😀 ok";
    for cut in 0..=text.len() {
        let mut pending = Vec::new();
        let mut all = decode_utf8_stream(&mut pending, &text.as_bytes()[..cut]);
        assert!(pending.len() <= 3);
        all.push_str(&decode_utf8_stream(&mut pending, &text.as_bytes()[cut..]));
        assert_eq!(all, text, "cut at {cut}");
        assert!(pending.is_empty());
    }
}

#[test]
fn parses_osc_notification_sequences() {
    let text = "before\x1b]9;needs input\x07middle\x1b]777;notify;Codex;waiting\x1b\\after";
    assert_eq!(
        osc_notifications(text),
        vec!["needs input".to_string(), "Codex: waiting".to_string()]
    );
}

#[test]
fn osc_progress_is_not_a_notification() {
    let set = "\x1b]9;4;1;50\x07";
    let clear = "\x1b]9;4;0\x07";
    let err = "\x1b]9;4;2\x07";
    assert!(
        osc_notifications(set).is_empty(),
        "progress set must not become a notification"
    );
    assert!(osc_notifications(clear).is_empty());
    assert!(osc_notifications(err).is_empty());

    let (events, _) = scan_osc_events(set);
    assert_eq!(events.progress, Some(Some(50)));
    let (events, _) = scan_osc_events(clear);
    assert_eq!(events.progress, Some(None));
    // A notification beside progress still counts.
    let mixed = "\x1b]9;4;1;10\x07\x1b]9;needs review\x07";
    let (events, _) = scan_osc_events(mixed);
    assert_eq!(events.progress, Some(Some(10)));
    assert_eq!(events.notifications, vec!["needs review".to_string()]);
}

#[test]
fn progress_states_have_their_values() {
    assert_eq!(osc_progress_update("9;4;1;7"), Some(Some(7)));
    assert_eq!(osc_progress_update("9;4;0;7"), Some(None));
    assert_eq!(osc_progress_update("2;title"), None);
    assert_eq!(osc_progress_update("9;hello"), None);
}

#[test]
fn ignores_non_notification_osc_sequences() {
    assert!(osc_notifications("\x1b]0;terminal title\x07").is_empty());
    // Numbers alone are no message.
    assert!(osc_notifications("\x1b]9;4\x07").is_empty());
    assert!(osc_notifications("\x1b]9;4;1\x07").is_empty());
}

#[test]
fn notification_fields_are_joined() {
    assert_eq!(format_osc_notification("one"), Some("one".to_string()));
    assert_eq!(format_osc_notification("notify;a;b;c"), Some("a: b".to_string()));
    assert_eq!(format_osc_notification("Notification;a"), Some("a".to_string()));
    assert_eq!(format_osc_notification(";;"), None);
    assert_eq!(format_osc_notification("4;1"), None);
    assert_eq!(format_osc_notification("12"), None);
}

#[test]
fn osc_title_reads_window_title_sequences() {
    assert_eq!(
        osc_title("\x1b]2;✳ Fixing the parser bug\x07"),
        Some("✳ Fixing the parser bug".to_string())
    );
    assert_eq!(
        osc_title("\x1b]0;reviewing auth\x1b\\"),
        Some("reviewing auth".to_string())
    );
    // The last title of a read counts.
    assert_eq!(
        osc_title("\x1b]2;first\x07output\x1b]2;second\x07"),
        Some("second".to_string())
    );
    // The name of an icon is no title, and a notification is none either.
    assert_eq!(osc_title("\x1b]1;icon\x07"), None);
    assert_eq!(osc_title("\x1b]9;needs input\x07"), None);
    assert_eq!(osc_title("plain output"), None);
    assert_eq!(osc_window_title("2; spaced "), Some("spaced".to_string()));
}

#[test]
fn osc_title_and_notification_survive_the_same_read() {
    let (events, _) = scan_osc_events("\x1b]2;fixing parser\x07\x1b]9;needs input\x07");
    assert_eq!(events.title.as_deref(), Some("fixing parser"));
    assert_eq!(events.notifications, vec!["needs input".to_string()]);
}

#[test]
fn scan_osc_notifications_detects_sequences_split_across_reads() {
    let mut tail = String::new();
    tail.push_str("before\x1b]9;needs ");
    let (events, retain_from) = scan_osc_events(&tail);
    assert!(events.notifications.is_empty());
    // What is kept starts where the open sequence starts.
    assert_eq!(&tail[retain_from..], "\x1b]9;needs ");
    tail.drain(..retain_from);
    tail.push_str("input\x07done");
    let (events, retain_from) = scan_osc_events(&tail);
    assert_eq!(events.notifications, vec!["needs input".to_string()]);
    assert_eq!(retain_from, tail.len());
}

#[test]
fn the_kept_part_is_counted_in_bytes() {
    let mut tail = "é\x1b]9;wait".to_string();
    let (_, retain_from) = scan_osc_events(&tail);
    assert_eq!(retain_from, 2);
    let events = take_osc_events(&mut tail);
    assert!(events.notifications.is_empty());
    assert_eq!(tail, "\x1b]9;wait");
    tail.push('\x07');
    let events = take_osc_events(&mut tail);
    assert_eq!(events.notifications, ["wait"]);
    assert_eq!(tail, "");
}

#[test]
fn an_endless_sequence_is_kept_within_bounds() {
    let mut tail = format!("\x1b]9;{}", "y".repeat(2 * OSC_TAIL_CAP));
    cap_osc_tail(&mut tail);
    assert_eq!(tail.len(), OSC_TAIL_CAP);
    assert!(tail.chars().all(|c| c == 'y'));
}

#[test]
fn what_is_not_utf8_is_replaced_and_what_is_cut_is_kept() {
    let mut pending = Vec::new();
    assert_eq!(decode_utf8_stream(&mut pending, b"\xffab\xc3"), "\u{fffd}ab");
    assert_eq!(pending, b"\xc3");
    assert_eq!(decode_utf8_stream(&mut pending, b"\xa9"), "\u{e9}");
    assert!(pending.is_empty());
}
