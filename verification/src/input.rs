//! Keys: how they are written down, and what a terminal sends for them.
use crate::text::chars::{
    begins, chars_of, filled, is_text, keep_filled, lower, lowered, opt_text, parts, push_chars,
    split_char, starts_with, string_of, texts, trim, trimmed, views,
};
use crate::text::numbers::{decimal, decimal_chars, number, parse_decimal};
use vstd::prelude::*;
use vstd::slice::slice_subrange;

verus! {

/// A key.
#[derive(Debug, Clone, Copy, PartialEq, Eq, Structural)]
pub enum KeyCode {
    Enter,
    Backspace,
    Tab,
    BackTab,
    Esc,
    Left,
    Right,
    Up,
    Down,
    Home,
    End,
    PageUp,
    PageDown,
    Insert,
    Delete,
    F(u8),
    Char(char),
    /// A key that terminals send nothing for.
    Other,
}

/// The keys that are held down with another.
#[derive(Debug, Clone, Copy, PartialEq, Eq, Structural)]
pub struct KeyModifiers {
    pub shift: bool,
    pub alt: bool,
    pub control: bool,
}

impl KeyModifiers {
    /// None held down.
    pub fn empty() -> (r: KeyModifiers)
        ensures
            r == (KeyModifiers { shift: false, alt: false, control: false }),
    {
        KeyModifiers { shift: false, alt: false, control: false }
    }
}

/// Why a key is not understood.
#[derive(Debug)]
pub enum KeyError {
    /// No key was given.
    NoKeys,
    /// A key is empty.
    Empty,
    UnknownModifier(String),
    UnknownKey(String),
    /// Terminals send nothing for the key.
    Unsupported(String),
}

/// The number that stands for the modifiers in a sequence; none where none is held down.
pub open spec fn modifier_number(m: KeyModifiers) -> Option<int> {
    if !m.shift && !m.alt && !m.control {
        None
    } else {
        Some(
            1 + (if m.shift {
                1int
            } else {
                0
            }) + (if m.alt {
                2int
            } else {
                0
            }) + (if m.control {
                4int
            } else {
                0
            }),
        )
    }
}

fn modifier_code(modifiers: KeyModifiers) -> (r: Option<u8>)
    ensures
        r matches Some(n) ==> modifier_number(modifiers) == Some(n as int),
        r is None ==> modifier_number(modifiers) is None,
{
    match (modifiers.shift, modifiers.alt, modifiers.control) {
        (false, false, false) => None,
        (true, false, false) => Some(2),
        (false, true, false) => Some(3),
        (true, true, false) => Some(4),
        (false, false, true) => Some(5),
        (true, false, true) => Some(6),
        (false, true, true) => Some(7),
        (true, true, true) => Some(8),
    }
}

/// The sequence of a key that ends in a letter: `ESC [` and the letter, with `1;` and the
/// number of the modifiers between where there are any.
pub open spec fn letter_sequence(letter: Seq<char>, m: KeyModifiers) -> Seq<char> {
    match modifier_number(m) {
        Some(n) => "\x1b[1;"@ + decimal(n as nat) + letter,
        None => "\x1b["@ + letter,
    }
}

fn modified_csi(letter: &str, modifiers: KeyModifiers) -> (r: String)
    ensures
        r@ == letter_sequence(letter@, modifiers),
{
    match modifier_code(modifiers) {
        Some(code) => {
            let mut out = "\x1b[1;".to_string();
            let digits = decimal_chars(code as u64);
            push_chars(&mut out, digits.as_slice());
            out.append(letter);
            out
        },
        None => {
            let mut out = "\x1b[".to_string();
            out.append(letter);
            out
        },
    }
}

/// The sequence of a key that is a number and a tilde.
pub open spec fn tilde_sequence(number: int, m: KeyModifiers) -> Seq<char> {
    match modifier_number(m) {
        Some(n) => "\x1b["@ + decimal(number as nat) + ";"@ + decimal(n as nat) + "~"@,
        None => "\x1b["@ + decimal(number as nat) + "~"@,
    }
}

fn modified_tilde(number: u8, modifiers: KeyModifiers) -> (r: String)
    ensures
        r@ == tilde_sequence(number as int, modifiers),
{
    let mut out = "\x1b[".to_string();
    let digits = decimal_chars(number as u64);
    push_chars(&mut out, digits.as_slice());
    if let Some(code) = modifier_code(modifiers) {
        out.append(";");
        let digits = decimal_chars(code as u64);
        push_chars(&mut out, digits.as_slice());
    }
    out.append("~");
    out
}

/// The sequence of a function key; there are twelve.
pub open spec fn function_sequence(n: u8, m: KeyModifiers) -> Option<Seq<char>> {
    if n == 1 {
        Some(letter_sequence("P"@, m))
    } else if n == 2 {
        Some(letter_sequence("Q"@, m))
    } else if n == 3 {
        Some(letter_sequence("R"@, m))
    } else if n == 4 {
        Some(letter_sequence("S"@, m))
    } else if n == 5 {
        Some(tilde_sequence(15, m))
    } else if 6 <= n <= 10 {
        Some(tilde_sequence(n + 11, m))
    } else if 11 <= n <= 12 {
        Some(tilde_sequence(n + 12, m))
    } else {
        None
    }
}

fn function_key(n: u8, modifiers: KeyModifiers) -> (r: Option<String>)
    ensures
        opt_text(r) == function_sequence(n, modifiers),
{
    let base: u8 = match n {
        1 => {
            return Some(modified_csi("P", modifiers));
        },
        2 => {
            return Some(modified_csi("Q", modifiers));
        },
        3 => {
            return Some(modified_csi("R", modifiers));
        },
        4 => {
            return Some(modified_csi("S", modifiers));
        },
        5 => 15,
        6 => 17,
        7 => 18,
        8 => 19,
        9 => 20,
        10 => 21,
        11 => 23,
        12 => 24,
        _ => {
            return None;
        },
    };
    Some(modified_tilde(base, modifiers))
}

/// The character that a key sends together with Control.
pub open spec fn control_of(ch: char) -> Option<char> {
    if 'a' <= ch <= 'z' {
        Some((ch as int - 'a' as int + 1) as char)
    } else if 'A' <= ch <= 'Z' {
        Some((ch as int - 'A' as int + 1) as char)
    } else if ch == ' ' || ch == '2' {
        Some('\0')
    } else if ch == '[' || ch == '3' {
        Some('\x1b')
    } else if ch == '\\' || ch == '4' {
        Some('\x1c')
    } else if ch == ']' || ch == '5' {
        Some('\x1d')
    } else if ch == '^' || ch == '6' {
        Some('\x1e')
    } else if ch == '_' || ch == '7' || ch == '/' {
        Some('\x1f')
    } else if ch == '8' || ch == '?' {
        Some('\x7f')
    } else {
        None
    }
}

fn ctrl_char(ch: char) -> (r: Option<char>)
    ensures
        r == control_of(ch),
{
    if 'a' <= ch && ch <= 'z' {
        Some((ch as u8 - 96) as char)
    } else if 'A' <= ch && ch <= 'Z' {
        Some((ch as u8 - 64) as char)
    } else if ch == ' ' || ch == '2' {
        Some('\0')
    } else if ch == '[' || ch == '3' {
        Some('\x1b')
    } else if ch == '\\' || ch == '4' {
        Some('\x1c')
    } else if ch == ']' || ch == '5' {
        Some('\x1d')
    } else if ch == '^' || ch == '6' {
        Some('\x1e')
    } else if ch == '_' || ch == '7' || ch == '/' {
        Some('\x1f')
    } else if ch == '8' || ch == '?' {
        Some('\x7f')
    } else {
        None
    }
}

/// The sequence of a key with Control held down that is a number: `ESC [`, the number, `;`,
/// the number of the modifiers and `u`. Without Control the key sends `plain`.
pub open spec fn numbered_sequence(code: int, m: KeyModifiers, plain: Seq<char>) -> Seq<char> {
    if m.control {
        "\x1b["@ + decimal(code as nat) + ";"@ + decimal(modifier_number(m)->0 as nat) + "u"@
    } else {
        plain
    }
}

fn modified_other_key(code: u32, modifiers: KeyModifiers, plain: &str) -> (r: String)
    ensures
        r@ == numbered_sequence(code as int, modifiers, plain@),
{
    if !modifiers.control {
        return plain.to_string();
    }
    match modifier_code(modifiers) {
        Some(n) => {
            let mut out = "\x1b[".to_string();
            let digits = decimal_chars(code as u64);
            push_chars(&mut out, digits.as_slice());
            out.append(";");
            let digits = decimal_chars(n as u64);
            push_chars(&mut out, digits.as_slice());
            out.append("u");
            out
        },
        None => plain.to_string(),
    }
}

/// What a key sends, but for what Alt adds.
pub open spec fn base_input(code: KeyCode, m: KeyModifiers) -> Option<Seq<char>> {
    match code {
        KeyCode::Enter => Some(numbered_sequence(13, m, "\r"@)),
        KeyCode::Backspace => Some(numbered_sequence(127, m, "\u{7f}"@)),
        KeyCode::BackTab => Some("\x1b[Z"@),
        KeyCode::Tab => Some(
            if m.control {
                numbered_sequence(9, m, "\t"@)
            } else if m.shift {
                "\x1b[Z"@
            } else {
                "\t"@
            },
        ),
        KeyCode::Esc => Some("\x1b"@),
        KeyCode::Left => Some(letter_sequence("D"@, m)),
        KeyCode::Right => Some(letter_sequence("C"@, m)),
        KeyCode::Up => Some(letter_sequence("A"@, m)),
        KeyCode::Down => Some(letter_sequence("B"@, m)),
        KeyCode::Home => Some(letter_sequence("H"@, m)),
        KeyCode::End => Some(letter_sequence("F"@, m)),
        KeyCode::PageUp => Some(tilde_sequence(5, m)),
        KeyCode::PageDown => Some(tilde_sequence(6, m)),
        KeyCode::Insert => Some(tilde_sequence(2, m)),
        KeyCode::Delete => Some(tilde_sequence(3, m)),
        KeyCode::F(n) => function_sequence(n, m),
        KeyCode::Char(ch) => if m.control {
            match control_of(ch) {
                Some(c) => Some(seq![c]),
                None => None,
            }
        } else {
            Some(seq![ch])
        },
        KeyCode::Other => None,
    }
}

/// What a terminal sends for a key. Alt puts an escape before what does not begin with one.
pub open spec fn input_of(code: KeyCode, m: KeyModifiers) -> Option<Seq<char>> {
    match base_input(code, m) {
        Some(s) => Some(
            if m.alt && !begins(s, "\x1b"@) {
                "\x1b"@ + s
            } else {
                s
            },
        ),
        None => None,
    }
}

fn char_to_input(ch: char, modifiers: KeyModifiers) -> (r: Option<String>)
    ensures
        opt_text(r) == base_input(KeyCode::Char(ch), modifiers),
{
    let c = if modifiers.control {
        match ctrl_char(ch) {
            Some(c) => c,
            None => {
                return None;
            },
        }
    } else {
        ch
    };
    let mut out = String::new();
    out.push(c);
    assert(out@ =~= seq![c]);
    Some(out)
}

/// What a terminal sends for a key, where it sends anything.
pub fn key_to_input(code: KeyCode, modifiers: KeyModifiers) -> (r: Option<String>)
    ensures
        opt_text(r) == input_of(code, modifiers),
{
    let data = match code {
        KeyCode::Enter => Some(modified_other_key(13, modifiers, "\r")),
        KeyCode::Backspace => Some(modified_other_key(127, modifiers, "\u{7f}")),
        KeyCode::BackTab => Some("\x1b[Z".to_string()),
        KeyCode::Tab => Some(
            if modifiers.control {
                modified_other_key(9, modifiers, "\t")
            } else if modifiers.shift {
                "\x1b[Z".to_string()
            } else {
                "\t".to_string()
            },
        ),
        KeyCode::Esc => Some("\x1b".to_string()),
        KeyCode::Left => Some(modified_csi("D", modifiers)),
        KeyCode::Right => Some(modified_csi("C", modifiers)),
        KeyCode::Up => Some(modified_csi("A", modifiers)),
        KeyCode::Down => Some(modified_csi("B", modifiers)),
        KeyCode::Home => Some(modified_csi("H", modifiers)),
        KeyCode::End => Some(modified_csi("F", modifiers)),
        KeyCode::PageUp => Some(modified_tilde(5, modifiers)),
        KeyCode::PageDown => Some(modified_tilde(6, modifiers)),
        KeyCode::Insert => Some(modified_tilde(2, modifiers)),
        KeyCode::Delete => Some(modified_tilde(3, modifiers)),
        KeyCode::F(n) => function_key(n, modifiers),
        KeyCode::Char(ch) => char_to_input(ch, modifiers),
        KeyCode::Other => None,
    };
    match data {
        None => None,
        Some(data) => {
            if modifiers.alt {
                let chars = chars_of(data.as_str());
                if !starts_with(chars.as_slice(), "\x1b") {
                    let mut out = "\x1b".to_string();
                    out.append(data.as_str());
                    return Some(out);
                }
            }
            Some(data)
        },
    }
}

/// The key with the name, which is given in small letters.
pub open spec fn named_key(l: Seq<char>) -> Option<KeyCode> {
    if l == "enter"@ || l == "return"@ {
        Some(KeyCode::Enter)
    } else if l == "backspace"@ || l == "bs"@ {
        Some(KeyCode::Backspace)
    } else if l == "tab"@ {
        Some(KeyCode::Tab)
    } else if l == "backtab"@ || l == "shift-tab"@ || l == "shift+tab"@ {
        Some(KeyCode::BackTab)
    } else if l == "esc"@ || l == "escape"@ {
        Some(KeyCode::Esc)
    } else if l == "left"@ {
        Some(KeyCode::Left)
    } else if l == "right"@ {
        Some(KeyCode::Right)
    } else if l == "up"@ {
        Some(KeyCode::Up)
    } else if l == "down"@ {
        Some(KeyCode::Down)
    } else if l == "home"@ {
        Some(KeyCode::Home)
    } else if l == "end"@ {
        Some(KeyCode::End)
    } else if l == "pageup"@ || l == "page-up"@ || l == "pgup"@ {
        Some(KeyCode::PageUp)
    } else if l == "pagedown"@ || l == "page-down"@ || l == "pgdown"@ {
        Some(KeyCode::PageDown)
    } else if l == "insert"@ || l == "ins"@ {
        Some(KeyCode::Insert)
    } else if l == "delete"@ || l == "del"@ {
        Some(KeyCode::Delete)
    } else if l == "space"@ {
        Some(KeyCode::Char(' '))
    } else {
        None
    }
}

fn find_named(l: &[char]) -> (r: Option<KeyCode>)
    ensures
        r == named_key(l@),
{
    if is_text(l, "enter") || is_text(l, "return") {
        Some(KeyCode::Enter)
    } else if is_text(l, "backspace") || is_text(l, "bs") {
        Some(KeyCode::Backspace)
    } else if is_text(l, "tab") {
        Some(KeyCode::Tab)
    } else if is_text(l, "backtab") || is_text(l, "shift-tab") || is_text(l, "shift+tab") {
        Some(KeyCode::BackTab)
    } else if is_text(l, "esc") || is_text(l, "escape") {
        Some(KeyCode::Esc)
    } else if is_text(l, "left") {
        Some(KeyCode::Left)
    } else if is_text(l, "right") {
        Some(KeyCode::Right)
    } else if is_text(l, "up") {
        Some(KeyCode::Up)
    } else if is_text(l, "down") {
        Some(KeyCode::Down)
    } else if is_text(l, "home") {
        Some(KeyCode::Home)
    } else if is_text(l, "end") {
        Some(KeyCode::End)
    } else if is_text(l, "pageup") || is_text(l, "page-up") || is_text(l, "pgup") {
        Some(KeyCode::PageUp)
    } else if is_text(l, "pagedown") || is_text(l, "page-down") || is_text(l, "pgdown") {
        Some(KeyCode::PageDown)
    } else if is_text(l, "insert") || is_text(l, "ins") {
        Some(KeyCode::Insert)
    } else if is_text(l, "delete") || is_text(l, "del") {
        Some(KeyCode::Delete)
    } else if is_text(l, "space") {
        Some(KeyCode::Char(' '))
    } else {
        None
    }
}

/// The key that is written so: a name, `f` and a number, or the character itself.
pub open spec fn key_code(key: Seq<char>) -> Option<KeyCode> {
    let l = lowered(key);
    if named_key(l) is Some {
        named_key(l)
    } else if begins(l, "f"@) {
        match number(l.skip(1), 10, 255) {
            Some(n) => Some(KeyCode::F(n as u8)),
            None => None,
        }
    } else if key.len() == 1 {
        Some(KeyCode::Char(key[0]))
    } else {
        None
    }
}

fn parse_key_code(key: &[char]) -> (r: Option<KeyCode>)
    ensures
        r == key_code(key@),
{
    let l = lower(key);
    let named = find_named(l.as_slice());
    if named.is_some() {
        return named;
    }
    if starts_with(l.as_slice(), "f") {
        proof {
            reveal_strlit("f");
        }
        let rest = slice_subrange(l.as_slice(), 1, l.len());
        assert(rest@ =~= l@.skip(1));
        return match parse_decimal(rest, 255) {
            Some(n) => Some(KeyCode::F(n as u8)),
            None => None,
        };
    }
    if key.len() == 1 {
        Some(KeyCode::Char(key[0]))
    } else {
        None
    }
}

/// The text with a plus for each minus.
pub open spec fn with_plus(s: Seq<char>) -> Seq<char> {
    s.map_values(
        |c: char|
            if c == '-' {
                '+'
            } else {
                c
            },
    )
}

/// The parts of a written key: what stands between pluses and minuses, trimmed, but for
/// what is empty.
pub open spec fn key_parts(spec: Seq<char>) -> Seq<Seq<char>> {
    filled(parts(with_plus(trimmed(spec)), '+'))
}

/// The modifiers with one more held down; none where there is no such modifier.
pub open spec fn held(m: KeyModifiers, name: Seq<char>) -> Option<KeyModifiers> {
    let l = lowered(name);
    if l == "c"@ || l == "ctrl"@ || l == "control"@ {
        Some(KeyModifiers { control: true, ..m })
    } else if l == "a"@ || l == "alt"@ || l == "meta"@ || l == "option"@ {
        Some(KeyModifiers { alt: true, ..m })
    } else if l == "s"@ || l == "shift"@ {
        Some(KeyModifiers { shift: true, ..m })
    } else {
        None
    }
}

/// The modifiers that the names say together; none where one is not known.
pub open spec fn all_held(names: Seq<Seq<char>>) -> Option<KeyModifiers>
    decreases names.len(),
{
    if names.len() == 0 {
        Some(KeyModifiers { shift: false, alt: false, control: false })
    } else {
        match all_held(names.drop_last()) {
            Some(m) => held(m, names.last()),
            None => None,
        }
    }
}

/// The first of the names that is no modifier.
pub open spec fn first_unknown(names: Seq<Seq<char>>) -> Option<Seq<char>>
    decreases names.len(),
{
    if names.len() == 0 {
        None
    } else {
        match first_unknown(names.drop_last()) {
            Some(n) => Some(n),
            None => if held(all_held(names.drop_last())->0, names.last()) is None {
                Some(names.last())
            } else {
                None
            },
        }
    }
}

fn hold(modifiers: KeyModifiers, name: &[char]) -> (r: Option<KeyModifiers>)
    ensures
        r == held(modifiers, name@),
{
    let l = lower(name);
    let l = l.as_slice();
    if is_text(l, "c") || is_text(l, "ctrl") || is_text(l, "control") {
        Some(KeyModifiers { control: true, ..modifiers })
    } else if is_text(l, "a") || is_text(l, "alt") || is_text(l, "meta") || is_text(l, "option") {
        Some(KeyModifiers { alt: true, ..modifiers })
    } else if is_text(l, "s") || is_text(l, "shift") {
        Some(KeyModifiers { shift: true, ..modifiers })
    } else {
        None
    }
}

/// What a written key means: the key and the modifiers, or what is wrong with it.
pub open spec fn binding(spec: Seq<char>) -> Option<(KeyCode, KeyModifiers)> {
    let p = key_parts(spec);
    if p.len() == 0 {
        None
    } else {
        match (key_code(p.last()), all_held(p.drop_last())) {
            (Some(code), Some(m)) => Some((code, m)),
            _ => None,
        }
    }
}

/// What is wrong with a written key.
pub open spec fn binding_error(spec: Seq<char>, e: KeyError) -> bool {
    let p = key_parts(spec);
    if p.len() == 0 {
        e is Empty
    } else {
        match first_unknown(p.drop_last()) {
            Some(name) => e matches KeyError::UnknownModifier(got) && got@ == lowered(name),
            None => e matches KeyError::UnknownKey(got) && got@ == p.last(),
        }
    }
}

/// Reads a written key, such as `Ctrl-b` or `alt+x`.
pub fn parse_key_binding(spec: &str) -> (r: Result<(KeyCode, KeyModifiers), KeyError>)
    ensures
        match binding(spec@) {
            Some(b) => r == Ok::<(KeyCode, KeyModifiers), KeyError>(b),
            None => r matches Err(e) && binding_error(spec@, e),
        },
{
    let chars = chars_of(spec);
    let text = trim(chars.as_slice());
    let mut plus: Vec<char> = Vec::new();
    let mut i: usize = 0;
    while i < text.len()
        invariant
            i <= text.len(),
            plus@ == with_plus(text@).take(i as int),
        decreases text.len() - i,
    {
        let c = if text[i] == '-' {
            '+'
        } else {
            text[i]
        };
        plus.push(c);
        i += 1;
        assert(with_plus(text@).take(i as int) =~= with_plus(text@).take(i - 1).push(c));
    }
    assert(with_plus(text@).take(i as int) =~= with_plus(text@));
    let all = split_char(plus.as_slice(), '+');
    let pieces = keep_filled(&all);
    let ghost p = views(pieces@);
    assert(p.len() == pieces@.len());
    if pieces.len() == 0 {
        return Err(KeyError::Empty);
    }
    let last: usize = pieces.len() - 1;
    let ghost names = p.drop_last();
    let mut modifiers = KeyModifiers::empty();
    let mut k: usize = 0;
    assert(names.take(0) =~= Seq::empty());
    while k < last
        invariant
            k <= last,
            last + 1 == pieces.len(),
            p == views(pieces@),
            names == p.drop_last(),
            p == key_parts(spec@),
            all_held(names.take(k as int)) == Some(modifiers),
            first_unknown(names.take(k as int)) is None,
        decreases last - k,
    {
        assert(names.take(k + 1).drop_last() =~= names.take(k as int));
        assert(names.take(k + 1).last() == pieces@[k as int]@);
        match hold(modifiers, pieces[k]) {
            Some(m) => {
                modifiers = m;
            },
            None => {
                let l = lower(pieces[k]);
                proof {
                    unknown_stays_first(names, k + 1);
                }
                return Err(KeyError::UnknownModifier(string_of(l.as_slice())));
            },
        }
        k += 1;
    }
    assert(names.take(k as int) =~= names);
    match parse_key_code(pieces[last]) {
        Some(code) => Ok((code, modifiers)),
        None => Err(KeyError::UnknownKey(string_of(pieces[last]))),
    }
}

/// What is unknown among the first names is what is first unknown among all.
proof fn unknown_stays_first(names: Seq<Seq<char>>, n: int)
    requires
        0 <= n <= names.len(),
        first_unknown(names.take(n)) is Some,
        all_held(names.take(n)) is None,
    ensures
        first_unknown(names) == first_unknown(names.take(n)),
        all_held(names) is None,
    decreases names.len(),
{
    if n < names.len() {
        assert(names.drop_last().take(n) =~= names.take(n));
        unknown_stays_first(names.drop_last(), n);
    } else {
        assert(names.take(n) =~= names);
    }
}

/// What a terminal sends for a written key.
pub open spec fn spec_input(spec: Seq<char>) -> Option<Seq<char>> {
    match binding(spec) {
        Some((code, m)) => input_of(code, m),
        None => None,
    }
}

/// What is wrong with a written key that nothing is sent for.
pub open spec fn spec_error(spec: Seq<char>, e: KeyError) -> bool {
    if binding(spec) is None {
        binding_error(spec, e)
    } else {
        e matches KeyError::Unsupported(got) && got@ == spec
    }
}

/// What a terminal sends for a written key.
pub fn encode_key_spec(spec: &str) -> (r: Result<String, KeyError>)
    ensures
        match spec_input(spec@) {
            Some(s) => r matches Ok(data) && data@ == s,
            None => r matches Err(e) && spec_error(spec@, e),
        },
{
    match parse_key_binding(spec) {
        Ok((code, modifiers)) => match key_to_input(code, modifiers) {
            Some(data) => Ok(data),
            None => Err(KeyError::Unsupported(spec.to_string())),
        },
        Err(e) => Err(e),
    }
}

/// What a terminal sends for written keys, one after another; none where one of them sends
/// nothing.
pub open spec fn specs_input(keys: Seq<Seq<char>>) -> Option<Seq<char>>
    decreases keys.len(),
{
    if keys.len() == 0 {
        Some(Seq::empty())
    } else {
        match (specs_input(keys.drop_last()), spec_input(keys.last())) {
            (Some(a), Some(b)) => Some(a + b),
            _ => None,
        }
    }
}

/// The first of the keys that nothing is sent for.
pub open spec fn first_bad(keys: Seq<Seq<char>>) -> Option<Seq<char>>
    decreases keys.len(),
{
    if keys.len() == 0 {
        None
    } else {
        match first_bad(keys.drop_last()) {
            Some(k) => Some(k),
            None => if spec_input(keys.last()) is None {
                Some(keys.last())
            } else {
                None
            },
        }
    }
}

/// What a terminal sends for written keys, one after another. There must be one.
pub fn encode_key_specs(keys: &[String]) -> (r: Result<String, KeyError>)
    ensures
        if keys@.len() == 0 {
            r matches Err(KeyError::NoKeys)
        } else {
            match first_bad(texts(keys@)) {
                Some(key) => r matches Err(e) && spec_error(key, e),
                None => r matches Ok(data) && specs_input(texts(keys@)) == Some(data@),
            }
        },
{
    if keys.len() == 0 {
        return Err(KeyError::NoKeys);
    }
    let ghost all = texts(keys@);
    let mut data = String::new();
    let mut i: usize = 0;
    assert(all.take(0) =~= Seq::empty());
    while i < keys.len()
        invariant
            i <= keys.len(),
            0 < keys.len(),
            all == texts(keys@),
            specs_input(all.take(i as int)) == Some(data@),
            first_bad(all.take(i as int)) is None,
        decreases keys.len() - i,
    {
        assert(all.take(i + 1).drop_last() =~= all.take(i as int));
        assert(all.take(i + 1).last() == keys@[i as int]@);
        match encode_key_spec(keys[i].as_str()) {
            Ok(s) => {
                data.append(s.as_str());
            },
            Err(e) => {
                proof {
                    bad_stays_first(all, i + 1);
                }
                return Err(e);
            },
        }
        i += 1;
    }
    assert(all.take(i as int) =~= all);
    Ok(data)
}

/// What is bad among the first keys is what is first bad among all.
proof fn bad_stays_first(keys: Seq<Seq<char>>, n: int)
    requires
        0 <= n <= keys.len(),
        first_bad(keys.take(n)) is Some,
    ensures
        first_bad(keys) == first_bad(keys.take(n)),
    decreases keys.len(),
{
    if n < keys.len() {
        assert(keys.drop_last().take(n) =~= keys.take(n));
        bad_stays_first(keys.drop_last(), n);
    } else {
        assert(keys.take(n) =~= keys);
    }
}

/// With Alt held down, whatever a key sends begins with an escape.
pub proof fn alt_sends_escape(code: KeyCode, m: KeyModifiers)
    requires
        m.alt,
    ensures
        input_of(code, m) matches Some(s) ==> begins(s, "\x1b"@),
{
    reveal_strlit("\x1b");
    if let Some(s) = base_input(code, m) {
        assert(("\x1b"@ + s).subrange(0, 1) =~= "\x1b"@);
    }
}

/// Keys are sent one after another: the keys of two lists send what each list sends.
pub proof fn key_lists_join(a: Seq<Seq<char>>, b: Seq<Seq<char>>)
    ensures
        specs_input(a + b) == match (specs_input(a), specs_input(b)) {
            (Some(x), Some(y)) => Some(x + y),
            _ => None,
        },
    decreases b.len(),
{
    if b.len() == 0 {
        assert(a + b =~= a);
        if let Some(x) = specs_input(a) {
            assert(x + Seq::<char>::empty() =~= x);
        }
    } else {
        assert((a + b).drop_last() =~= a + b.drop_last());
        key_lists_join(a, b.drop_last());
        match (specs_input(a), specs_input(b.drop_last()), spec_input(b.last())) {
            (Some(x), Some(y), Some(z)) => {
                assert((x + y) + z =~= x + (y + z));
            },
            _ => {},
        }
    }
}

} // verus!
