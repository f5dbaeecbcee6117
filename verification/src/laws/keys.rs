//! What keys send, in the bytes that programs in a terminal expect.
use crate::input::{
    all_held, base_input, binding, held, input_of, key_code, key_parts, key_to_input,
    modifier_number, named_key, spec_input, with_plus, KeyCode, KeyModifiers,
};
use crate::text::chars::{
    begins, char_position, char_position_from_is, char_position_from_is_first, filled, is_white,
    lowered, opt_text, parts, trimmed_of_solid,
};
use crate::text::numbers::{decimal, digit_char};
use vstd::prelude::*;

verus! {

/// No other key is held down.
pub open spec fn is_plain(m: KeyModifiers) -> bool {
    !m.shift && !m.alt && !m.control
}

/// The digit that a terminal puts for the keys that are held down.
pub open spec fn held_digit(m: KeyModifiers) -> char {
    match (m.shift, m.alt, m.control) {
        (true, false, false) => '2',
        (false, true, false) => '3',
        (true, true, false) => '4',
        (false, false, true) => '5',
        (true, false, true) => '6',
        (false, true, true) => '7',
        (true, true, true) => '8',
        (false, false, false) => '1',
    }
}

/// `ESC [` and the letter; with other keys held down `ESC [ 1 ;`, their digit and the letter.
pub open spec fn with_letter(letter: char, m: KeyModifiers) -> Option<Seq<char>> {
    if is_plain(m) {
        Some(seq!['\x1b', '[', letter])
    } else {
        Some(seq!['\x1b', '[', '1', ';', held_digit(m), letter])
    }
}

/// `ESC [`, the digits and a tilde, with `;` and the digit of the keys held down before it.
pub open spec fn with_tilde(digits: Seq<char>, m: KeyModifiers) -> Option<Seq<char>> {
    if is_plain(m) {
        Some(seq!['\x1b', '['] + digits + seq!['~'])
    } else {
        Some(seq!['\x1b', '['] + digits + seq![';', held_digit(m), '~'])
    }
}

/// The digit of the keys held down is the number that is sent for them.
proof fn held_digit_is_sent(m: KeyModifiers)
    requires
        !is_plain(m),
    ensures
        modifier_number(m) matches Some(n) && decimal(n as nat) == seq![held_digit(m)],
{
    let n = modifier_number(m)->0;
    assert(2 <= n <= 8);
    assert(digit_char(n) == held_digit(m));
    assert(decimal(n as nat) =~= seq![held_digit(m)]);
}

/// What begins with an escape gets none for Alt.
proof fn escape_stays(code: KeyCode, m: KeyModifiers)
    requires
        base_input(code, m) matches Some(s) && s.len() > 0 && s[0] == '\x1b',
    ensures
        input_of(code, m) == base_input(code, m),
{
    reveal_strlit("\x1b");
    let s = base_input(code, m)->0;
    assert(s.subrange(0, 1) =~= "\x1b"@);
}

/// The keys that move send the letters that terminals send for them: up, down, right and left
/// A, B, C and D, home and end H and F, and the first four function keys P to S.
pub proof fn moving_keys_send_letters(m: KeyModifiers)
    ensures
        input_of(KeyCode::Up, m) == with_letter('A', m),
        input_of(KeyCode::Down, m) == with_letter('B', m),
        input_of(KeyCode::Right, m) == with_letter('C', m),
        input_of(KeyCode::Left, m) == with_letter('D', m),
        input_of(KeyCode::Home, m) == with_letter('H', m),
        input_of(KeyCode::End, m) == with_letter('F', m),
        input_of(KeyCode::F(1), m) == with_letter('P', m),
        input_of(KeyCode::F(2), m) == with_letter('Q', m),
        input_of(KeyCode::F(3), m) == with_letter('R', m),
        input_of(KeyCode::F(4), m) == with_letter('S', m),
{
    reveal_strlit("\x1b[");
    reveal_strlit("\x1b[1;");
    reveal_strlit("A");
    reveal_strlit("B");
    reveal_strlit("C");
    reveal_strlit("D");
    reveal_strlit("H");
    reveal_strlit("F");
    reveal_strlit("P");
    reveal_strlit("Q");
    reveal_strlit("R");
    reveal_strlit("S");
    if !is_plain(m) {
        held_digit_is_sent(m);
    }
    assert(base_input(KeyCode::Up, m)->0 =~= with_letter('A', m)->0);
    assert(base_input(KeyCode::Down, m)->0 =~= with_letter('B', m)->0);
    assert(base_input(KeyCode::Right, m)->0 =~= with_letter('C', m)->0);
    assert(base_input(KeyCode::Left, m)->0 =~= with_letter('D', m)->0);
    assert(base_input(KeyCode::Home, m)->0 =~= with_letter('H', m)->0);
    assert(base_input(KeyCode::End, m)->0 =~= with_letter('F', m)->0);
    assert(base_input(KeyCode::F(1), m)->0 =~= with_letter('P', m)->0);
    assert(base_input(KeyCode::F(2), m)->0 =~= with_letter('Q', m)->0);
    assert(base_input(KeyCode::F(3), m)->0 =~= with_letter('R', m)->0);
    assert(base_input(KeyCode::F(4), m)->0 =~= with_letter('S', m)->0);
    escape_stays(KeyCode::Up, m);
    escape_stays(KeyCode::Down, m);
    escape_stays(KeyCode::Right, m);
    escape_stays(KeyCode::Left, m);
    escape_stays(KeyCode::Home, m);
    escape_stays(KeyCode::End, m);
    escape_stays(KeyCode::F(1), m);
    escape_stays(KeyCode::F(2), m);
    escape_stays(KeyCode::F(3), m);
    escape_stays(KeyCode::F(4), m);
}

/// One digit, or two, as they are written.
proof fn digits_are(n: nat)
    requires
        n < 100,
    ensures
        n < 10 ==> decimal(n) == seq![digit_char(n as int)],
        n >= 10 ==> decimal(n) == seq![digit_char((n / 10) as int), digit_char((n % 10) as int)],
{
    reveal_with_fuel(decimal, 3);
    if n >= 10 {
        assert(decimal(n) =~= seq![digit_char((n / 10) as int), digit_char((n % 10) as int)]);
    } else {
        assert(decimal(n) =~= seq![digit_char(n as int)]);
    }
}

/// The keys that are sent as numbers: insert 2, delete 3, page up 5, page down 6, and the
/// function keys from the fifth to the twelfth, with the numbers that terminals give them. There
/// are no others.
pub proof fn numbered_keys_send_numbers(m: KeyModifiers)
    ensures
        input_of(KeyCode::Insert, m) == with_tilde(seq!['2'], m),
        input_of(KeyCode::Delete, m) == with_tilde(seq!['3'], m),
        input_of(KeyCode::PageUp, m) == with_tilde(seq!['5'], m),
        input_of(KeyCode::PageDown, m) == with_tilde(seq!['6'], m),
        input_of(KeyCode::F(5), m) == with_tilde(seq!['1', '5'], m),
        input_of(KeyCode::F(6), m) == with_tilde(seq!['1', '7'], m),
        input_of(KeyCode::F(7), m) == with_tilde(seq!['1', '8'], m),
        input_of(KeyCode::F(8), m) == with_tilde(seq!['1', '9'], m),
        input_of(KeyCode::F(9), m) == with_tilde(seq!['2', '0'], m),
        input_of(KeyCode::F(10), m) == with_tilde(seq!['2', '1'], m),
        input_of(KeyCode::F(11), m) == with_tilde(seq!['2', '3'], m),
        input_of(KeyCode::F(12), m) == with_tilde(seq!['2', '4'], m),
        forall|n: u8| n == 0 || n > 12 ==> #[trigger] input_of(KeyCode::F(n), m) is None,
        input_of(KeyCode::Other, m) is None,
{
    reveal_strlit("\x1b[");
    reveal_strlit(";");
    reveal_strlit("~");
    if !is_plain(m) {
        held_digit_is_sent(m);
    }
    digits_are(2);
    digits_are(3);
    digits_are(5);
    digits_are(6);
    digits_are(15);
    digits_are(17);
    digits_are(18);
    digits_are(19);
    digits_are(20);
    digits_are(21);
    digits_are(23);
    digits_are(24);
    assert(base_input(KeyCode::Insert, m)->0 =~= with_tilde(seq!['2'], m)->0);
    assert(base_input(KeyCode::Delete, m)->0 =~= with_tilde(seq!['3'], m)->0);
    assert(base_input(KeyCode::PageUp, m)->0 =~= with_tilde(seq!['5'], m)->0);
    assert(base_input(KeyCode::PageDown, m)->0 =~= with_tilde(seq!['6'], m)->0);
    assert(base_input(KeyCode::F(5), m)->0 =~= with_tilde(seq!['1', '5'], m)->0);
    assert(base_input(KeyCode::F(6), m)->0 =~= with_tilde(seq!['1', '7'], m)->0);
    assert(base_input(KeyCode::F(7), m)->0 =~= with_tilde(seq!['1', '8'], m)->0);
    assert(base_input(KeyCode::F(8), m)->0 =~= with_tilde(seq!['1', '9'], m)->0);
    assert(base_input(KeyCode::F(9), m)->0 =~= with_tilde(seq!['2', '0'], m)->0);
    assert(base_input(KeyCode::F(10), m)->0 =~= with_tilde(seq!['2', '1'], m)->0);
    assert(base_input(KeyCode::F(11), m)->0 =~= with_tilde(seq!['2', '3'], m)->0);
    assert(base_input(KeyCode::F(12), m)->0 =~= with_tilde(seq!['2', '4'], m)->0);
    escape_stays(KeyCode::Insert, m);
    escape_stays(KeyCode::Delete, m);
    escape_stays(KeyCode::PageUp, m);
    escape_stays(KeyCode::PageDown, m);
    escape_stays(KeyCode::F(5), m);
    escape_stays(KeyCode::F(6), m);
    escape_stays(KeyCode::F(7), m);
    escape_stays(KeyCode::F(8), m);
    escape_stays(KeyCode::F(9), m);
    escape_stays(KeyCode::F(10), m);
    escape_stays(KeyCode::F(11), m);
    escape_stays(KeyCode::F(12), m);
}

/// What Alt makes of what a key sends.
pub open spec fn behind_alt(s: Seq<char>, m: KeyModifiers) -> Option<Seq<char>> {
    if m.alt {
        Some(seq!['\x1b'] + s)
    } else {
        Some(s)
    }
}

/// What the keys of a typewriter send: a character itself, return a carriage return, tab a tab
/// and, with Shift, the sequence for going back, backspace the delete character, escape an escape.
/// Alt puts an escape before it.
pub proof fn typed_keys_send_themselves(ch: char, m: KeyModifiers)
    requires
        !m.control,
    ensures
        ch != '\x1b' ==> input_of(KeyCode::Char(ch), m) == behind_alt(seq![ch], m),
        input_of(KeyCode::Enter, m) == behind_alt(seq!['\r'], m),
        input_of(KeyCode::Backspace, m) == behind_alt(seq!['\u{7f}'], m),
        input_of(KeyCode::Tab, m) == if m.shift {
            Some(seq!['\x1b', '[', 'Z'])
        } else {
            behind_alt(seq!['\t'], m)
        },
        input_of(KeyCode::BackTab, m) == Some(seq!['\x1b', '[', 'Z']),
        input_of(KeyCode::Esc, m) == Some(seq!['\x1b']),
{
    reveal_strlit("\x1b");
    reveal_strlit("\x1b[Z");
    reveal_strlit("\r");
    reveal_strlit("\t");
    reveal_strlit("\u{7f}");
    assert("\x1b"@ =~= seq!['\x1b']);
    assert("\x1b[Z"@ =~= seq!['\x1b', '[', 'Z']);
    assert("\r"@ =~= seq!['\r']);
    assert("\t"@ =~= seq!['\t']);
    assert("\u{7f}"@ =~= seq!['\u{7f}']);
    assert(seq![ch].subrange(0, 1)[0] == ch);
    assert("\r"@.subrange(0, 1)[0] == '\r');
    assert("\t"@.subrange(0, 1)[0] == '\t');
    assert("\u{7f}"@.subrange(0, 1)[0] == '\u{7f}');
    assert("\x1b"@[0] == '\x1b');
    escape_stays(KeyCode::BackTab, m);
    escape_stays(KeyCode::Esc, m);
    if m.shift {
        escape_stays(KeyCode::Tab, m);
    }
}

/// With Control a letter, small or large, sends its place in the alphabet, and no two letters
/// send the same; space sends the null character.
pub proof fn control_sends_the_place_of_the_letter(place: u8, m: KeyModifiers)
    requires
        1 <= place <= 26,
        m.control,
    ensures
        input_of(KeyCode::Char((96 + place) as char), m) == behind_alt(seq![place as char], m),
        input_of(KeyCode::Char((64 + place) as char), m) == behind_alt(seq![place as char], m),
        input_of(KeyCode::Char(' '), m) == behind_alt(seq!['\0'], m),
{
    reveal_strlit("\x1b");
    let c = place as char;
    assert(seq![c].subrange(0, 1)[0] == c);
    assert(seq!['\0'].subrange(0, 1)[0] == '\0');
    assert("\x1b"@[0] == '\x1b');
    assert("\x1b"@ =~= seq!['\x1b']);
}

/// With Control, return, tab and backspace are sent as the numbers 13, 9 and 127, with the digit
/// of the keys held down.
pub proof fn control_numbers_the_editing_keys(m: KeyModifiers)
    requires
        m.control,
    ensures
        input_of(KeyCode::Enter, m) == Some(
            seq!['\x1b', '[', '1', '3', ';', held_digit(m), 'u'],
        ),
        input_of(KeyCode::Tab, m) == Some(seq!['\x1b', '[', '9', ';', held_digit(m), 'u']),
        input_of(KeyCode::Backspace, m) == Some(
            seq!['\x1b', '[', '1', '2', '7', ';', held_digit(m), 'u'],
        ),
{
    reveal_strlit("\x1b[");
    reveal_strlit(";");
    reveal_strlit("u");
    held_digit_is_sent(m);
    digits_are(13);
    digits_are(9);
    digits_are(12);
    assert(decimal(127) =~= seq!['1', '2', '7']) by {
        reveal_with_fuel(decimal, 4);
    }
    assert(base_input(KeyCode::Enter, m)->0 =~= seq![
        '\x1b',
        '[',
        '1',
        '3',
        ';',
        held_digit(m),
        'u',
    ]);
    assert(base_input(KeyCode::Tab, m)->0 =~= seq!['\x1b', '[', '9', ';', held_digit(m), 'u']);
    assert(base_input(KeyCode::Backspace, m)->0 =~= seq![
        '\x1b',
        '[',
        '1',
        '2',
        '7',
        ';',
        held_digit(m),
        'u',
    ]);
    escape_stays(KeyCode::Enter, m);
    escape_stays(KeyCode::Tab, m);
    escape_stays(KeyCode::Backspace, m);
}

/// A text that is written in one piece: no white space in it, no plus and no minus.
pub open spec fn is_one_piece(s: Seq<char>) -> bool {
    s.len() > 0 && forall|i: int|
        0 <= i < s.len() ==> !is_white(#[trigger] s[i]) && s[i] != '+' && s[i] != '-'
}

/// A key in one piece is one part.
proof fn one_piece_is_one_part(k: Seq<char>)
    requires
        is_one_piece(k),
    ensures
        key_parts(k) == seq![k],
{
    trimmed_of_solid(k);
    assert(with_plus(k) =~= k);
    char_position_from_is_first(k, '+', 0);
    assert(char_position(k, '+') is None);
    assert(parts(k, '+') =~= seq![k]);
    let one = seq![k];
    assert(one.drop_last() =~= Seq::empty());
    assert(filled(one.drop_last()) =~= Seq::empty());
    assert(filled(one) =~= seq![k]);
}

/// A modifier and a key, with a plus or a minus between, are two parts.
proof fn two_pieces_are_two_parts(a: Seq<char>, sep: char, k: Seq<char>)
    requires
        is_one_piece(a),
        is_one_piece(k),
        sep == '+' || sep == '-',
    ensures
        key_parts(a.push(sep) + k) == seq![a, k],
{
    let s = a.push(sep) + k;
    assert(s[0] == a[0] && s.last() == k.last());
    trimmed_of_solid(s);
    let t = with_plus(s);
    assert(t =~= a.push('+') + k);
    assert forall|i: int| 0 <= i < a.len() implies t[i] != '+' by {
        assert(t[i] == a[i]);
    }
    char_position_from_is(t, '+', 0, a.len() as int);
    assert(t.take(a.len() as int) =~= a);
    assert(t.skip((a.len() + 1) as int) =~= k);
    char_position_from_is_first(k, '+', 0);
    assert(parts(k, '+') =~= seq![k]);
    assert(parts(t, '+') =~= seq![a, k]);
    trimmed_of_solid(a);
    trimmed_of_solid(k);
    let two = seq![a, k];
    assert(two.drop_last() =~= seq![a]);
    assert(seq![a].drop_last() =~= Seq::<Seq<char>>::empty());
    assert(filled(seq![a].drop_last()) =~= Seq::<Seq<char>>::empty());
    assert(filled(seq![a]) =~= seq![a]);
    assert(filled(two) =~= seq![a, k]);
}

/// A key that is written in one piece means the key.
proof fn written_key_means(k: Seq<char>)
    requires
        is_one_piece(k),
    ensures
        binding(k) == match key_code(k) {
            Some(code) => Some((code, KeyModifiers { shift: false, alt: false, control: false })),
            None => None::<(KeyCode, KeyModifiers)>,
        },
{
    one_piece_is_one_part(k);
    assert(seq![k].drop_last() =~= Seq::empty());
}

/// A key that is written with one modifier means the key with it held down.
proof fn written_pair_means(a: Seq<char>, sep: char, k: Seq<char>)
    requires
        is_one_piece(a),
        is_one_piece(k),
        sep == '+' || sep == '-',
    ensures
        binding(a.push(sep) + k) == match (
            key_code(k),
            held(KeyModifiers { shift: false, alt: false, control: false }, a),
        ) {
            (Some(code), Some(m)) => Some((code, m)),
            _ => None::<(KeyCode, KeyModifiers)>,
        },
{
    two_pieces_are_two_parts(a, sep, k);
    assert(seq![a, k].drop_last() =~= seq![a]);
    assert(seq![a].drop_last() =~= Seq::<Seq<char>>::empty());
    assert(all_held(Seq::<Seq<char>>::empty()) == Some(
        KeyModifiers { shift: false, alt: false, control: false },
    ));
}

/// The names of keys, as literals that can be told apart.
proof fn key_names_differ()
    ensures
        named_key("up"@) == Some(KeyCode::Up),
        named_key("down"@) == Some(KeyCode::Down),
        named_key("right"@) == Some(KeyCode::Right),
        named_key("left"@) == Some(KeyCode::Left),
        named_key("home"@) == Some(KeyCode::Home),
        named_key("end"@) == Some(KeyCode::End),
        named_key("pageup"@) == Some(KeyCode::PageUp),
        named_key("pgup"@) == Some(KeyCode::PageUp),
        named_key("pagedown"@) == Some(KeyCode::PageDown),
        named_key("pgdown"@) == Some(KeyCode::PageDown),
        named_key("insert"@) == Some(KeyCode::Insert),
        named_key("ins"@) == Some(KeyCode::Insert),
        named_key("delete"@) == Some(KeyCode::Delete),
        named_key("del"@) == Some(KeyCode::Delete),
        named_key("enter"@) == Some(KeyCode::Enter),
        named_key("return"@) == Some(KeyCode::Enter),
        named_key("tab"@) == Some(KeyCode::Tab),
        named_key("backtab"@) == Some(KeyCode::BackTab),
        named_key("backspace"@) == Some(KeyCode::Backspace),
        named_key("bs"@) == Some(KeyCode::Backspace),
        named_key("esc"@) == Some(KeyCode::Esc),
        named_key("escape"@) == Some(KeyCode::Esc),
        named_key("space"@) == Some(KeyCode::Char(' ')),
{
    reveal_strlit("up");
    reveal_strlit("down");
    reveal_strlit("right");
    reveal_strlit("left");
    reveal_strlit("home");
    reveal_strlit("end");
    reveal_strlit("pageup");
    reveal_strlit("page-up");
    reveal_strlit("pgup");
    reveal_strlit("pagedown");
    reveal_strlit("page-down");
    reveal_strlit("pgdown");
    reveal_strlit("insert");
    reveal_strlit("ins");
    reveal_strlit("delete");
    reveal_strlit("del");
    reveal_strlit("enter");
    reveal_strlit("return");
    reveal_strlit("tab");
    reveal_strlit("backtab");
    reveal_strlit("shift-tab");
    reveal_strlit("shift+tab");
    reveal_strlit("backspace");
    reveal_strlit("bs");
    reveal_strlit("esc");
    reveal_strlit("escape");
    reveal_strlit("space");
    assert("up"@.len() == 2);
    assert("down"@.len() == 4);
    assert("right"@.len() == 5);
    assert("left"@.len() == 4);
    assert("home"@.len() == 4);
    assert("end"@.len() == 3);
    assert("pageup"@.len() == 6);
    assert("page-up"@.len() == 7);
    assert("pgup"@.len() == 4);
    assert("pagedown"@.len() == 8);
    assert("page-down"@.len() == 9);
    assert("pgdown"@.len() == 6);
    assert("insert"@.len() == 6);
    assert("ins"@.len() == 3);
    assert("delete"@.len() == 6);
    assert("del"@.len() == 3);
    assert("enter"@.len() == 5);
    assert("return"@.len() == 6);
    assert("tab"@.len() == 3);
    assert("backtab"@.len() == 7);
    assert("shift-tab"@.len() == 9);
    assert("shift+tab"@.len() == 9);
    assert("backspace"@.len() == 9);
    assert("bs"@.len() == 2);
    assert("esc"@.len() == 3);
    assert("escape"@.len() == 6);
    assert("space"@.len() == 5);
    assert("up"@[0] != "bs"@[0]);
    assert("down"@[0] != "left"@[0]);
    assert("down"@[0] != "home"@[0]);
    assert("down"@[0] != "pgup"@[0]);
    assert("right"@[0] != "enter"@[0]);
    assert("right"@[0] != "space"@[0]);
    assert("left"@[0] != "home"@[0]);
    assert("left"@[0] != "pgup"@[0]);
    assert("home"@[0] != "pgup"@[0]);
    assert("end"@[0] != "ins"@[0]);
    assert("end"@[0] != "del"@[0]);
    assert("end"@[0] != "tab"@[0]);
    assert("end"@[1] != "esc"@[1]);
    assert("pageup"@[1] != "pgdown"@[1]);
    assert("pageup"@[0] != "insert"@[0]);
    assert("pageup"@[0] != "delete"@[0]);
    assert("pageup"@[0] != "return"@[0]);
    assert("pageup"@[0] != "escape"@[0]);
    assert("page-up"@[0] != "backtab"@[0]);
    assert("page-down"@[0] != "shift-tab"@[0]);
    assert("page-down"@[0] != "shift+tab"@[0]);
    assert("page-down"@[0] != "backspace"@[0]);
    assert("pgdown"@[0] != "insert"@[0]);
    assert("pgdown"@[0] != "delete"@[0]);
    assert("pgdown"@[0] != "return"@[0]);
    assert("pgdown"@[0] != "escape"@[0]);
    assert("insert"@[0] != "delete"@[0]);
    assert("insert"@[0] != "return"@[0]);
    assert("insert"@[0] != "escape"@[0]);
    assert("ins"@[0] != "del"@[0]);
    assert("ins"@[0] != "tab"@[0]);
    assert("ins"@[0] != "esc"@[0]);
    assert("delete"@[0] != "return"@[0]);
    assert("delete"@[0] != "escape"@[0]);
    assert("del"@[0] != "tab"@[0]);
    assert("del"@[0] != "esc"@[0]);
    assert("enter"@[0] != "space"@[0]);
    assert("return"@[0] != "escape"@[0]);
    assert("tab"@[0] != "esc"@[0]);
    assert("shift-tab"@[5] != "shift+tab"@[5]);
    assert("shift-tab"@[0] != "backspace"@[0]);
    assert("shift+tab"@[0] != "backspace"@[0]);
}

/// Keys that are written by their names, in whatever case, send what terminals send for them.
pub proof fn written_keys_send(k: Seq<char>)
    requires
        is_one_piece(k),
    ensures
        lowered(k) == "up"@ ==> spec_input(k) == Some(seq!['\x1b', '[', 'A']),
        lowered(k) == "down"@ ==> spec_input(k) == Some(seq!['\x1b', '[', 'B']),
        lowered(k) == "right"@ ==> spec_input(k) == Some(seq!['\x1b', '[', 'C']),
        lowered(k) == "left"@ ==> spec_input(k) == Some(seq!['\x1b', '[', 'D']),
        lowered(k) == "home"@ ==> spec_input(k) == Some(seq!['\x1b', '[', 'H']),
        lowered(k) == "end"@ ==> spec_input(k) == Some(seq!['\x1b', '[', 'F']),
        lowered(k) == "pageup"@ || lowered(k) == "pgup"@ ==> spec_input(k) == Some(
            seq!['\x1b', '[', '5', '~'],
        ),
        lowered(k) == "pagedown"@ || lowered(k) == "pgdown"@ ==> spec_input(k) == Some(
            seq!['\x1b', '[', '6', '~'],
        ),
        lowered(k) == "insert"@ || lowered(k) == "ins"@ ==> spec_input(k) == Some(
            seq!['\x1b', '[', '2', '~'],
        ),
        lowered(k) == "delete"@ || lowered(k) == "del"@ ==> spec_input(k) == Some(
            seq!['\x1b', '[', '3', '~'],
        ),
        lowered(k) == "enter"@ || lowered(k) == "return"@ ==> spec_input(k) == Some(seq!['\r']),
        lowered(k) == "tab"@ ==> spec_input(k) == Some(seq!['\t']),
        lowered(k) == "backtab"@ ==> spec_input(k) == Some(seq!['\x1b', '[', 'Z']),
        lowered(k) == "backspace"@ || lowered(k) == "bs"@ ==> spec_input(k) == Some(
            seq!['\u{7f}'],
        ),
        lowered(k) == "esc"@ || lowered(k) == "escape"@ ==> spec_input(k) == Some(seq!['\x1b']),
        lowered(k) == "space"@ ==> spec_input(k) == Some(seq![' ']),
{
    let none = KeyModifiers { shift: false, alt: false, control: false };
    written_key_means(k);
    key_names_differ();
    moving_keys_send_letters(none);
    numbered_keys_send_numbers(none);
    typed_keys_send_themselves(' ', none);
    assert(seq!['\x1b', '['] + seq!['5'] + seq!['~'] =~= seq!['\x1b', '[', '5', '~']);
    assert(seq!['\x1b', '['] + seq!['6'] + seq!['~'] =~= seq!['\x1b', '[', '6', '~']);
    assert(seq!['\x1b', '['] + seq!['2'] + seq!['~'] =~= seq!['\x1b', '[', '2', '~']);
    assert(seq!['\x1b', '['] + seq!['3'] + seq!['~'] =~= seq!['\x1b', '[', '3', '~']);
}

/// A modifier is written before a key, with a plus or a minus between: Control by `c`, `ctrl` or
/// `control`, Alt by `a`, `alt`, `meta` or `option`, Shift by `s` or `shift`. Whatever the key
/// sends, it sends with that modifier and no other.
pub proof fn written_modifiers_are_held(a: Seq<char>, sep: char, k: Seq<char>)
    requires
        is_one_piece(a),
        is_one_piece(k),
        sep == '+' || sep == '-',
        key_code(k) is Some,
    ensures
        lowered(a) == "c"@ || lowered(a) == "ctrl"@ || lowered(a) == "control"@ ==> spec_input(
            a.push(sep) + k,
        ) == input_of(
            key_code(k)->0,
            KeyModifiers { shift: false, alt: false, control: true },
        ),
        lowered(a) == "a"@ || lowered(a) == "alt"@ || lowered(a) == "meta"@ || lowered(a)
            == "option"@ ==> spec_input(a.push(sep) + k) == input_of(
            key_code(k)->0,
            KeyModifiers { shift: false, alt: true, control: false },
        ),
        lowered(a) == "s"@ || lowered(a) == "shift"@ ==> spec_input(a.push(sep) + k) == input_of(
            key_code(k)->0,
            KeyModifiers { shift: true, alt: false, control: false },
        ),
{
    written_pair_means(a, sep, k);
    reveal_strlit("c");
    reveal_strlit("ctrl");
    reveal_strlit("control");
    reveal_strlit("a");
    reveal_strlit("alt");
    reveal_strlit("meta");
    reveal_strlit("option");
    reveal_strlit("s");
    reveal_strlit("shift");
    assert("c"@[0] == 'c' && "a"@[0] == 'a' && "s"@[0] == 's');
    assert("ctrl"@[0] == 'c' && "meta"@[0] == 'm' && "control"@[0] == 'c' && "option"@[0] == 'o');
    assert("alt"@[0] == 'a' && "shift"@[0] == 's');
}

/// With a modifier written before it an arrow sends its letter behind the modifier's digit.
pub proof fn written_arrows_with_modifiers(a: Seq<char>, sep: char, k: Seq<char>)
    requires
        is_one_piece(a),
        is_one_piece(k),
        sep == '+' || sep == '-',
        lowered(a) == "ctrl"@ || lowered(a) == "alt"@ || lowered(a) == "shift"@,
    ensures
        ({
            let digit = if lowered(a) == "ctrl"@ {
                '5'
            } else if lowered(a) == "alt"@ {
                '3'
            } else {
                '2'
            };
            let s = a.push(sep) + k;
            &&& lowered(k) == "up"@ ==> spec_input(s) == Some(
                seq!['\x1b', '[', '1', ';', digit, 'A'],
            )
            &&& lowered(k) == "down"@ ==> spec_input(s) == Some(
                seq!['\x1b', '[', '1', ';', digit, 'B'],
            )
            &&& lowered(k) == "right"@ ==> spec_input(s) == Some(
                seq!['\x1b', '[', '1', ';', digit, 'C'],
            )
            &&& lowered(k) == "left"@ ==> spec_input(s) == Some(
                seq!['\x1b', '[', '1', ';', digit, 'D'],
            )
        }),
{
    key_names_differ();
    reveal_strlit("ctrl");
    reveal_strlit("alt");
    reveal_strlit("shift");
    assert("ctrl"@.len() == 4 && "alt"@.len() == 3 && "shift"@.len() == 5);
    if lowered(k) == "up"@ || lowered(k) == "down"@ || lowered(k) == "right"@ || lowered(k)
        == "left"@ {
        written_modifiers_are_held(a, sep, k);
        moving_keys_send_letters(KeyModifiers { shift: false, alt: false, control: true });
        moving_keys_send_letters(KeyModifiers { shift: false, alt: true, control: false });
        moving_keys_send_letters(KeyModifiers { shift: true, alt: false, control: false });
    }
}

/// The arrow keys send what programs take for up, down, right and left.
pub proof fn arrows_are_sent(
    m: KeyModifiers,
    up: Option<String>,
    down: Option<String>,
    right: Option<String>,
    left: Option<String>,
)
    requires
        call_ensures(key_to_input, (KeyCode::Up, m), up),
        call_ensures(key_to_input, (KeyCode::Down, m), down),
        call_ensures(key_to_input, (KeyCode::Right, m), right),
        call_ensures(key_to_input, (KeyCode::Left, m), left),
    ensures
        opt_text(up) == with_letter('A', m),
        opt_text(down) == with_letter('B', m),
        opt_text(right) == with_letter('C', m),
        opt_text(left) == with_letter('D', m),
{
    moving_keys_send_letters(m);
}

} // verus!
