//! The parts of a screen that rules look at.
use crate::text::chars::{
    begins, blank, char_position, char_position_from_is_first, chars_of, is_blank, is_text,
    starts_with, string_of, strip_prefix, strip_suffix, trim, trim_start, trimmed, trimmed_start,
    views, without_prefix, without_suffix,
};
use crate::text::lines::{line_list, split_lines, without_return};
use crate::text::numbers::{number, parse_decimal};
use crate::text::utf8::{
    byte_len, byte_len_bounds, byte_len_concat, byte_len_push, char_at_byte, char_at_byte_is,
    char_width, cut_behind_prefix, find_byte,
};
use vstd::prelude::*;
use vstd::slice::slice_subrange;

verus! {

/// The bytes of the lines, with one for the end of each.
pub open spec fn lines_bytes(lines: Seq<Seq<char>>) -> nat
    decreases lines.len(),
{
    if lines.len() == 0 {
        0
    } else {
        lines_bytes(lines.drop_last()) + byte_len(lines.last()) + 1
    }
}

/// How many bytes stand before the line, each earlier one counted with one byte for its end.
pub open spec fn line_start(content: Seq<char>, index: int) -> int {
    let lines = line_list(content);
    let n = if index < lines.len() {
        index
    } else {
        lines.len() as int
    };
    let bytes = lines_bytes(lines.take(n)) as int;
    if bytes < byte_len(content) {
        bytes
    } else {
        byte_len(content) as int
    }
}

fn bytes_of(s: &[char]) -> (r: Option<usize>)
    ensures
        r matches Some(n) ==> n == byte_len(s@),
        r is None ==> byte_len(s@) > usize::MAX,
{
    let mut n: usize = 0;
    let mut i: usize = 0;
    assert(s@.take(0) =~= Seq::empty());
    while i < s.len()
        invariant
            i <= s.len(),
            n == byte_len(s@.take(i as int)),
        decreases s.len() - i,
    {
        let w = char_width(s[i]);
        proof {
            byte_len_push(s@.take(i as int), s@[i as int]);
            assert(s@.take(i + 1) =~= s@.take(i as int).push(s@[i as int]));
            byte_len_concat(s@.take(i + 1), s@.skip(i + 1));
            assert(s@.take(i + 1) + s@.skip(i + 1) =~= s@);
        }
        if w > usize::MAX - n {
            return None;
        }
        n += w;
        i += 1;
    }
    assert(s@.take(i as int) =~= s@);
    Some(n)
}

/// The bytes of more lines are more.
proof fn lines_bytes_grow(lines: Seq<Seq<char>>, a: int, b: int)
    requires
        0 <= a <= b <= lines.len(),
    ensures
        lines_bytes(lines.take(a)) <= lines_bytes(lines.take(b)),
    decreases b - a,
{
    if a < b {
        lines_bytes_grow(lines, a, b - 1);
        assert(lines.take(b).drop_last() =~= lines.take(b - 1));
    }
}

fn line_start_offset(content: &[char], total: usize, lines: &Vec<&[char]>, index: usize) -> (r: usize)
    requires
        views(lines@) == line_list(content@),
        total == byte_len(content@),
    ensures
        r == line_start(content@, index as int),
{
    let ghost all = line_list(content@);
    let n: usize = if index < lines.len() {
        index
    } else {
        lines.len()
    };
    assert(all.len() == lines@.len());
    let mut bytes: usize = 0;
    let mut i: usize = 0;
    assert(all.take(0).len() == 0);
    while i < n
        invariant
            i <= n <= lines@.len(),
            all == views(lines@),
            all == line_list(content@),
            total == byte_len(content@),
            n == if index < all.len() {
                index as int
            } else {
                all.len() as int
            },
            bytes <= total,
            bytes == lines_bytes(all.take(i as int)),
        decreases n - i,
    {
        assert(all.take(i + 1).drop_last() =~= all.take(i as int));
        assert(all.take(i + 1).last() == lines@[i as int]@);
        proof {
            lines_bytes_grow(all, i + 1, n as int);
        }
        match bytes_of(lines[i]) {
            None => {
                return total;
            },
            Some(w) => {
                if w >= total - bytes {
                    return total;
                }
                bytes = bytes + w + 1;
            },
        }
        i += 1;
    }
    bytes
}

/// What a part of a screen is told by.
#[derive(Debug, Clone, Copy, PartialEq, Eq, Structural)]
pub enum LineKind {
    /// A prompt: `›`, alone or before a space.
    Prompt,
    /// The first line of a block: it begins with a bullet, a square or a check mark.
    Marker,
    /// A horizontal rule.
    Rule,
    /// Not blank.
    Filled,
}

/// How many of the characters at the start are the one that rules are drawn with.
pub open spec fn rule_len(s: Seq<char>) -> int
    decreases s.len(),
{
    if s.len() == 0 || s[0] != '─' {
        0
    } else {
        1 + rule_len(s.drop_first())
    }
}

/// The length lies within the text.
pub proof fn rule_len_bounds(s: Seq<char>)
    ensures
        0 <= rule_len(s) <= s.len(),
    decreases s.len(),
{
    if s.len() > 0 && s[0] == '─' {
        rule_len_bounds(s.drop_first());
    }
}

/// A horizontal rule: a line that is drawn throughout, or at least three characters of one
/// before other text.
pub open spec fn is_rule(line: Seq<char>) -> bool {
    let t = trimmed(line);
    let n = rule_len(t);
    n > 0 && (trimmed_start(t.skip(n)).len() == 0 || n >= 3)
}

/// The line is of the kind.
pub open spec fn is_line(kind: LineKind, line: Seq<char>) -> bool {
    match kind {
        LineKind::Prompt => line == "›"@ || begins(line, "› "@),
        LineKind::Marker => line.len() > 0 && (line[0] == '•' || line[0] == '■' || line[0] == '✗'
            || line[0] == '✓'),
        LineKind::Rule => is_rule(line),
        LineKind::Filled => !is_blank(line),
    }
}

fn is_horizontal_rule(line: &[char]) -> (r: bool)
    ensures
        r == is_rule(line@),
{
    let t = trim(line);
    let mut n: usize = 0;
    assert(t@.skip(0) =~= t@);
    while n < t.len() && t[n] == '─'
        invariant
            n <= t.len(),
            rule_len(t@) == n + rule_len(t@.skip(n as int)),
        decreases t.len() - n,
    {
        assert(t@.skip(n as int).drop_first() =~= t@.skip(n + 1));
        n += 1;
    }
    if n == 0 {
        return false;
    }
    let rest = slice_subrange(t, n, t.len());
    assert(rest@ =~= t@.skip(n as int));
    trim_start(rest).len() == 0 || n >= 3
}

fn line_is(kind: LineKind, line: &[char]) -> (r: bool)
    ensures
        r == is_line(kind, line@),
{
    match kind {
        LineKind::Prompt => is_text(line, "›") || starts_with(line, "› "),
        LineKind::Marker => line.len() > 0 && (line[0] == '•' || line[0] == '■' || line[0] == '✗'
            || line[0] == '✓'),
        LineKind::Rule => is_horizontal_rule(line),
        LineKind::Filled => trim(line).len() > 0,
    }
}

/// The place of the last line of the kind.
pub open spec fn last_line(lines: Seq<Seq<char>>, kind: LineKind) -> Option<int>
    decreases lines.len(),
{
    if lines.len() == 0 {
        None
    } else if is_line(kind, lines.last()) {
        Some(lines.len() - 1)
    } else {
        last_line(lines.drop_last(), kind)
    }
}

/// The place of the first line of the kind from `from` on.
pub open spec fn first_line(lines: Seq<Seq<char>>, kind: LineKind, from: int) -> Option<int>
    decreases lines.len() - from,
{
    if from < 0 || from >= lines.len() {
        None
    } else if is_line(kind, lines[from]) {
        Some(from)
    } else {
        first_line(lines, kind, from + 1)
    }
}

/// The place lies among the lines.
pub proof fn last_line_bounds(lines: Seq<Seq<char>>, kind: LineKind)
    ensures
        last_line(lines, kind) matches Some(i) ==> 0 <= i < lines.len(),
    decreases lines.len(),
{
    if lines.len() > 0 {
        last_line_bounds(lines.drop_last(), kind);
    }
}

fn find_last(lines: &Vec<&[char]>, kind: LineKind, end: usize) -> (r: Option<usize>)
    requires
        end <= lines.len(),
    ensures
        r matches Some(i) ==> last_line(views(lines@).take(end as int), kind) == Some(i as int)
            && i < end,
        r is None ==> last_line(views(lines@).take(end as int), kind) is None,
{
    let ghost all = views(lines@);
    let mut n: usize = end;
    while n > 0
        invariant
            n <= end <= lines.len(),
            all == views(lines@),
            last_line(all.take(n as int), kind) == last_line(all.take(end as int), kind),
        decreases n,
    {
        assert(all.take(n as int).drop_last() =~= all.take(n - 1));
        assert(all.take(n as int).last() == lines@[n - 1]@);
        if line_is(kind, lines[n - 1]) {
            return Some(n - 1);
        }
        n -= 1;
    }
    None
}

fn find_first(lines: &Vec<&[char]>, kind: LineKind, from: usize) -> (r: Option<usize>)
    ensures
        r matches Some(i) ==> first_line(views(lines@), kind, from as int) == Some(i as int) && from
            <= i < lines.len(),
        r is None ==> first_line(views(lines@), kind, from as int) is None,
{
    let ghost all = views(lines@);
    let mut n: usize = from;
    while n < lines.len()
        invariant
            from <= n,
            all == views(lines@),
            first_line(all, kind, n as int) == first_line(all, kind, from as int),
        decreases lines.len() - n,
    {
        assert(all[n as int] == lines@[n as int]@);
        if line_is(kind, lines[n]) {
            return Some(n);
        }
        n += 1;
    }
    None
}

/// The place of the prompt that the screen waits at: the last prompt, where no block begins
/// below it.
pub open spec fn prompt_index(lines: Seq<Seq<char>>) -> Option<int> {
    match last_line(lines, LineKind::Prompt) {
        Some(i) => if first_line(lines, LineKind::Marker, i + 1) is Some {
            None
        } else {
            Some(i)
        },
        None => None,
    }
}

/// The place of the upper border of the prompt box: the last rule but one.
pub open spec fn box_top(lines: Seq<Seq<char>>) -> Option<int> {
    match last_line(lines, LineKind::Rule) {
        Some(i) => last_line(lines.take(i), LineKind::Rule),
        None => None,
    }
}

/// The place of the first of the last `count` lines that are not blank.
pub open spec fn bottom_start(lines: Seq<Seq<char>>, count: int) -> Option<int>
    decreases lines.len(),
{
    if count <= 0 || lines.len() == 0 {
        None
    } else if is_line(LineKind::Filled, lines.last()) {
        match bottom_start(lines.drop_last(), count - 1) {
            Some(i) => Some(i),
            None => Some(lines.len() - 1),
        }
    } else {
        bottom_start(lines.drop_last(), count)
    }
}

/// The place of the last of the first `count` lines that are not blank.
pub open spec fn top_end(lines: Seq<Seq<char>>, count: int) -> Option<int>
    decreases lines.len(),
{
    if count <= 0 || lines.len() == 0 {
        None
    } else if is_line(LineKind::Filled, lines[0]) {
        match top_end(lines.drop_first(), count - 1) {
            Some(i) => Some(i + 1),
            None => Some(0),
        }
    } else {
        match top_end(lines.drop_first(), count) {
            Some(i) => Some(i + 1),
            None => None,
        }
    }
}

fn current_prompt(lines: &Vec<&[char]>) -> (r: Option<usize>)
    ensures
        r matches Some(i) ==> prompt_index(views(lines@)) == Some(i as int) && i < lines.len(),
        r is None ==> prompt_index(views(lines@)) is None,
{
    let ghost all = views(lines@);
    assert(all.take(all.len() as int) =~= all);
    match find_last(lines, LineKind::Prompt, lines.len()) {
        Some(i) => if find_first(lines, LineKind::Marker, i + 1).is_some() {
            None
        } else {
            Some(i)
        },
        None => None,
    }
}

fn find_box_top(lines: &Vec<&[char]>) -> (r: Option<usize>)
    ensures
        r matches Some(i) ==> box_top(views(lines@)) == Some(i as int) && i < lines.len(),
        r is None ==> box_top(views(lines@)) is None,
{
    let ghost all = views(lines@);
    assert(all.take(all.len() as int) =~= all);
    match find_last(lines, LineKind::Rule, lines.len()) {
        Some(i) => find_last(lines, LineKind::Rule, i),
        None => None,
    }
}

fn find_bottom(lines: &Vec<&[char]>, count: usize) -> (r: Option<usize>)
    ensures
        r matches Some(i) ==> bottom_start(views(lines@), count as int) == Some(i as int) && i
            < lines.len(),
        r is None ==> bottom_start(views(lines@), count as int) is None,
{
    let ghost all = views(lines@);
    let mut left: usize = count;
    let mut found: Option<usize> = None;
    let mut n: usize = lines.len();
    assert(all.take(n as int) =~= all);
    while n > 0 && left > 0
        invariant
            n <= lines.len(),
            all == views(lines@),
            found matches Some(f) ==> f < lines.len(),
            bottom_start(all, count as int) == match bottom_start(
                all.take(n as int),
                left as int,
            ) {
                Some(i) => Some(i),
                None => match found {
                    Some(f) => Some(f as int),
                    None => None,
                },
            },
        decreases n,
    {
        assert(all.take(n as int).drop_last() =~= all.take(n - 1));
        assert(all.take(n as int).last() == lines@[n - 1]@);
        if line_is(LineKind::Filled, lines[n - 1]) {
            found = Some(n - 1);
            left -= 1;
        }
        n -= 1;
    }
    found
}

fn find_top(lines: &Vec<&[char]>, count: usize) -> (r: Option<usize>)
    ensures
        r matches Some(i) ==> top_end(views(lines@), count as int) == Some(i as int) && i
            < lines.len(),
        r is None ==> top_end(views(lines@), count as int) is None,
{
    let ghost all = views(lines@);
    let mut left: usize = count;
    let mut found: Option<usize> = None;
    let mut n: usize = 0;
    assert(all.skip(0) =~= all);
    while n < lines.len() && left > 0
        invariant
            n <= lines.len(),
            all == views(lines@),
            found matches Some(f) ==> f < n,
            top_end(all, count as int) == match top_end(all.skip(n as int), left as int) {
                Some(i) => Some(i + n),
                None => match found {
                    Some(f) => Some(f as int),
                    None => None,
                },
            },
        decreases lines.len() - n,
    {
        assert(all.skip(n as int).drop_first() =~= all.skip(n + 1));
        assert(all.skip(n as int)[0] == lines@[n as int]@);
        if line_is(LineKind::Filled, lines[n]) {
            found = Some(n);
            left -= 1;
        }
        n += 1;
    }
    found
}

/// A part of a screen.
#[derive(Debug, Clone, Copy, PartialEq, Eq, Structural)]
pub enum Region {
    Title,
    Progress,
    Whole,
    AfterLastPrompt,
    BeforePrompt,
    WholeWithoutPrompt,
    PromptBlock,
    AfterPromptBlock,
    BoxBody,
    AboveBox,
    LastLineAboveBox,
    AfterLastRule,
    BottomLines(usize),
    BottomFilled(usize),
    TopFilled(usize),
    /// A name that says nothing: no text.
    Nothing,
}

/// The number in round brackets behind the name.
pub open spec fn counted(spec: Seq<char>, name: Seq<char>) -> Option<int> {
    match inside_brackets(spec, name) {
        Some(n) => number(n, 10, usize::MAX as int),
        None => None,
    }
}

/// What stands in round brackets behind the name.
pub open spec fn inside_brackets(spec: Seq<char>, name: Seq<char>) -> Option<Seq<char>> {
    match without_prefix(spec, name) {
        Some(rest) => match without_prefix(rest, "("@) {
            Some(rest) => without_suffix(rest, ")"@),
            None => None,
        },
        None => None,
    }
}

/// The number of lines at the top, written in digits and without a zero before them.
pub open spec fn top_counted(spec: Seq<char>) -> Option<int> {
    match inside_brackets(spec, "top_non_empty_lines"@) {
        Some(n) => if begins(n, "0"@) || !(forall|i: int|
            0 <= i < n.len() ==> '0' <= #[trigger] n[i] <= '9') {
            None
        } else {
            number(n, 10, usize::MAX as int)
        },
        None => None,
    }
}

/// The part that a name stands for.
pub open spec fn named_region(name: Seq<char>) -> Region {
    let t = trimmed(name);
    if t == "osc_title"@ {
        Region::Title
    } else if t == "osc_progress"@ {
        Region::Progress
    } else if t == "whole_recent"@ {
        Region::Whole
    } else if t == "after_last_prompt_marker"@ {
        Region::AfterLastPrompt
    } else if t == "before_current_prompt_marker"@ {
        Region::BeforePrompt
    } else if t == "whole_recent_without_current_prompt_marker"@ {
        Region::WholeWithoutPrompt
    } else if t == "current_prompt_block_marker"@ {
        Region::PromptBlock
    } else if t == "after_current_prompt_block_marker"@ {
        Region::AfterPromptBlock
    } else if t == "prompt_box_body"@ {
        Region::BoxBody
    } else if t == "above_prompt_box"@ {
        Region::AboveBox
    } else if t == "last_non_empty_above_prompt_box"@ {
        Region::LastLineAboveBox
    } else if t == "after_last_horizontal_rule"@ {
        Region::AfterLastRule
    } else if counted(t, "bottom_lines"@) is Some {
        Region::BottomLines(counted(t, "bottom_lines"@)->0 as usize)
    } else if counted(t, "bottom_non_empty_lines"@) is Some {
        Region::BottomFilled(counted(t, "bottom_non_empty_lines"@)->0 as usize)
    } else if top_counted(t) is Some {
        Region::TopFilled(top_counted(t)->0 as usize)
    } else {
        Region::Nothing
    }
}

fn bracketed<'a>(spec: &'a [char], name: &str) -> (r: Option<&'a [char]>)
    ensures
        r matches Some(n) ==> inside_brackets(spec@, name@) == Some(n@),
        r is None ==> inside_brackets(spec@, name@) is None,
{
    match strip_prefix(spec, name) {
        Some(rest) => match strip_prefix(rest, "(") {
            Some(rest) => strip_suffix(rest, ")"),
            None => None,
        },
        None => None,
    }
}

fn region_count(spec: &[char], name: &str) -> (r: Option<usize>)
    ensures
        r matches Some(n) ==> counted(spec@, name@) == Some(n as int),
        r is None ==> counted(spec@, name@) is None,
{
    match bracketed(spec, name) {
        Some(n) => match parse_decimal(n, usize::MAX as u64) {
            Some(n) => Some(n as usize),
            None => None,
        },
        None => None,
    }
}

fn top_region_count(spec: &[char]) -> (r: Option<usize>)
    ensures
        r matches Some(n) ==> top_counted(spec@) == Some(n as int),
        r is None ==> top_counted(spec@) is None,
{
    let n = match bracketed(spec, "top_non_empty_lines") {
        Some(n) => n,
        None => {
            return None;
        },
    };
    if starts_with(n, "0") {
        return None;
    }
    let mut i: usize = 0;
    while i < n.len()
        invariant
            i <= n.len(),
            inside_brackets(spec@, "top_non_empty_lines"@) == Some(n@),
            forall|k: int| 0 <= k < i ==> '0' <= #[trigger] n@[k] <= '9',
        decreases n.len() - i,
    {
        if !('0' <= n[i] && n[i] <= '9') {
            assert(!('0' <= n@[i as int] <= '9'));
            return None;
        }
        i += 1;
    }
    match parse_decimal(n, usize::MAX as u64) {
        Some(n) => Some(n as usize),
        None => None,
    }
}

/// The part that a name stands for.
pub fn parse_region(name: &str) -> (r: Region)
    ensures
        r == named_region(name@),
{
    let chars = chars_of(name);
    let t = trim(chars.as_slice());
    if is_text(t, "osc_title") {
        Region::Title
    } else if is_text(t, "osc_progress") {
        Region::Progress
    } else if is_text(t, "whole_recent") {
        Region::Whole
    } else if is_text(t, "after_last_prompt_marker") {
        Region::AfterLastPrompt
    } else if is_text(t, "before_current_prompt_marker") {
        Region::BeforePrompt
    } else if is_text(t, "whole_recent_without_current_prompt_marker") {
        Region::WholeWithoutPrompt
    } else if is_text(t, "current_prompt_block_marker") {
        Region::PromptBlock
    } else if is_text(t, "after_current_prompt_block_marker") {
        Region::AfterPromptBlock
    } else if is_text(t, "prompt_box_body") {
        Region::BoxBody
    } else if is_text(t, "above_prompt_box") {
        Region::AboveBox
    } else if is_text(t, "last_non_empty_above_prompt_box") {
        Region::LastLineAboveBox
    } else if is_text(t, "after_last_horizontal_rule") {
        Region::AfterLastRule
    } else {
        match region_count(t, "bottom_lines") {
            Some(n) => Region::BottomLines(n),
            None => match region_count(t, "bottom_non_empty_lines") {
                Some(n) => Region::BottomFilled(n),
                None => match top_region_count(t) {
                    Some(n) => Region::TopFilled(n),
                    None => Region::Nothing,
                },
            },
        }
    }
}

/// What the screen shows from the line on; none where the bytes before the line end inside
/// a character.
pub open spec fn from_line(content: Seq<char>, index: int) -> Option<Seq<char>> {
    match char_at_byte(content, line_start(content, index)) {
        Some(k) => Some(content.skip(k)),
        None => None,
    }
}

/// What the screen shows above the line; none where the bytes before the line end inside a
/// character.
pub open spec fn to_line(content: Seq<char>, index: int) -> Option<Seq<char>> {
    match char_at_byte(content, line_start(content, index)) {
        Some(k) => Some(content.take(k)),
        None => None,
    }
}

/// What the screen shows from one line to another.
pub open spec fn between_lines(content: Seq<char>, from: int, to: int) -> Option<Seq<char>> {
    match (
        char_at_byte(content, line_start(content, from)),
        char_at_byte(content, line_start(content, to)),
    ) {
        (Some(a), Some(b)) => Some(content.subrange(a, b)),
        _ => None,
    }
}

/// What a part of the screen shows; none where it would begin or end inside a character,
/// which can be only where lines end in a carriage return and a line feed.
pub open spec fn region_text(region: Region, content: Seq<char>) -> Option<Seq<char>> {
    let lines = line_list(content);
    match region {
        Region::Whole => Some(content),
        Region::AfterLastPrompt => match last_line(lines, LineKind::Prompt) {
            Some(i) => from_line(content, i + 1),
            None => Some(content),
        },
        Region::BeforePrompt => match prompt_index(lines) {
            Some(i) => to_line(content, i),
            None => Some(content),
        },
        Region::WholeWithoutPrompt => Some(
            if prompt_index(lines) is Some {
                Seq::empty()
            } else {
                content
            },
        ),
        Region::PromptBlock => match prompt_index(lines) {
            Some(i) => match last_line(lines.take(i), LineKind::Marker) {
                Some(b) => Some(lines[b]),
                None => Some(Seq::empty()),
            },
            None => Some(Seq::empty()),
        },
        Region::AfterPromptBlock => match prompt_index(lines) {
            Some(i) => match last_line(lines.take(i), LineKind::Marker) {
                Some(b) => from_line(content, b),
                None => Some(Seq::empty()),
            },
            None => Some(Seq::empty()),
        },
        Region::BoxBody => match box_top(lines) {
            Some(top) => between_lines(
                content,
                top + 1,
                match first_line(lines, LineKind::Rule, top + 1) {
                    Some(end) => end,
                    None => lines.len() as int,
                },
            ),
            None => Some(Seq::empty()),
        },
        Region::AboveBox => above_box(content),
        Region::LastLineAboveBox => match above_box(content) {
            Some(above) => {
                let above = line_list(above);
                match last_line(above, LineKind::Filled) {
                    Some(i) => Some(above[i]),
                    None => Some(Seq::empty()),
                }
            },
            None => None,
        },
        Region::AfterLastRule => match last_line(lines, LineKind::Rule) {
            Some(i) => from_line(content, i + 1),
            None => Some(content),
        },
        Region::BottomLines(n) => from_line(
            content,
            if lines.len() <= n {
                0
            } else {
                lines.len() - n
            },
        ),
        Region::BottomFilled(n) => match bottom_start(lines, n as int) {
            Some(i) => from_line(content, i),
            None => Some(Seq::empty()),
        },
        Region::TopFilled(n) => match top_end(lines, n as int) {
            Some(i) => to_line(content, i + 1),
            None => Some(Seq::empty()),
        },
        Region::Title | Region::Progress | Region::Nothing => Some(Seq::empty()),
    }
}

/// What the screen shows above the prompt box; the whole where there is none.
pub open spec fn above_box(content: Seq<char>) -> Option<Seq<char>> {
    match box_top(line_list(content)) {
        Some(top) => to_line(content, top),
        None => Some(content),
    }
}

fn cut_from(content: &[char], total: usize, lines: &Vec<&[char]>, index: usize) -> (r: Option<String>)
    requires
        views(lines@) == line_list(content@),
        total == byte_len(content@),
    ensures
        r matches Some(s) ==> from_line(content@, index as int) == Some(s@),
        r is None ==> from_line(content@, index as int) is None,
{
    let offset = line_start_offset(content, total, lines, index);
    match find_byte(content, offset) {
        Some(k) => {
            let rest = slice_subrange(content, k, content.len());
            assert(rest@ =~= content@.skip(k as int));
            Some(string_of(rest))
        },
        None => None,
    }
}

fn cut_to(content: &[char], total: usize, lines: &Vec<&[char]>, index: usize) -> (r: Option<String>)
    requires
        views(lines@) == line_list(content@),
        total == byte_len(content@),
    ensures
        r matches Some(s) ==> to_line(content@, index as int) == Some(s@),
        r is None ==> to_line(content@, index as int) is None,
{
    let offset = line_start_offset(content, total, lines, index);
    match find_byte(content, offset) {
        Some(k) => {
            let head = slice_subrange(content, 0, k);
            assert(head@ =~= content@.take(k as int));
            Some(string_of(head))
        },
        None => None,
    }
}

/// A later line starts no earlier.
proof fn line_start_grows(content: Seq<char>, a: int, b: int)
    requires
        0 <= a <= b,
    ensures
        line_start(content, a) <= line_start(content, b),
{
    let lines = line_list(content);
    let m = if a < lines.len() {
        a
    } else {
        lines.len() as int
    };
    let n = if b < lines.len() {
        b
    } else {
        lines.len() as int
    };
    lines_bytes_grow(lines, m, n);
}

/// Fewer bytes end no later.
proof fn earlier_bytes_earlier(s: Seq<char>, a: int, b: int)
    requires
        a <= b,
        char_at_byte(s, a) is Some,
        char_at_byte(s, b) is Some,
    ensures
        char_at_byte(s, a)->0 <= char_at_byte(s, b)->0,
    decreases s.len(),
{
    char_at_byte_is(s, a);
    char_at_byte_is(s, b);
    let k = char_at_byte(s, a)->0;
    let m = char_at_byte(s, b)->0;
    if m < k {
        assert(s.take(k) =~= s.take(m) + s.subrange(m, k));
        byte_len_concat(s.take(m), s.subrange(m, k));
        byte_len_bounds(s.subrange(m, k));
    }
}

fn cut_between(
    content: &[char],
    total: usize,
    lines: &Vec<&[char]>,
    from: usize,
    to: usize,
) -> (r: Option<String>)
    requires
        views(lines@) == line_list(content@),
        total == byte_len(content@),
        from <= to,
    ensures
        r matches Some(s) ==> between_lines(content@, from as int, to as int) == Some(s@),
        r is None ==> between_lines(content@, from as int, to as int) is None,
{
    let a = line_start_offset(content, total, lines, from);
    let b = line_start_offset(content, total, lines, to);
    match (find_byte(content, a), find_byte(content, b)) {
        (Some(x), Some(y)) => {
            proof {
                line_start_grows(content@, from as int, to as int);
                earlier_bytes_earlier(content@, a as int, b as int);
            }
            let piece = slice_subrange(content, x, y);
            Some(string_of(piece))
        },
        _ => None,
    }
}

fn cut_above_box(content: &[char], total: usize, lines: &Vec<&[char]>) -> (r: Option<String>)
    requires
        views(lines@) == line_list(content@),
        total == byte_len(content@),
    ensures
        r matches Some(s) ==> above_box(content@) == Some(s@),
        r is None ==> above_box(content@) is None,
{
    match find_box_top(lines) {
        Some(top) => cut_to(content, total, lines, top),
        None => Some(string_of(content)),
    }
}

fn last_filled(text: &str) -> (r: String)
    ensures
        r@ == match last_line(line_list(text@), LineKind::Filled) {
            Some(i) => line_list(text@)[i],
            None => Seq::empty(),
        },
{
    let chars = chars_of(text);
    let lines = split_lines(chars.as_slice());
    let ghost all = views(lines@);
    assert(all.take(all.len() as int) =~= all);
    match find_last(&lines, LineKind::Filled, lines.len()) {
        Some(i) => {
            assert(all[i as int] == lines@[i as int]@);
            string_of(lines[i])
        },
        None => String::new(),
    }
}

/// What a part of the screen shows; none where it would begin or end inside a character.
pub fn cut_region(region: Region, screen: &str) -> (r: Option<String>)
    ensures
        r matches Some(s) ==> region_text(region, screen@) == Some(s@),
        r is None ==> region_text(region, screen@) is None,
{
    let chars = chars_of(screen);
    let content = chars.as_slice();
    let total = crate::text::utf8::bytes_in(screen);
    let lines = split_lines(content);
    let ghost all = views(lines@);
    assert(all == line_list(screen@));
    assert(all.take(all.len() as int) =~= all);
    assert(all.len() == lines@.len());
    match region {
        Region::Whole => Some(screen.to_string()),
        Region::AfterLastPrompt => match find_last(&lines, LineKind::Prompt, lines.len()) {
            Some(i) => cut_from(content, total, &lines, i + 1),
            None => Some(screen.to_string()),
        },
        Region::BeforePrompt => match current_prompt(&lines) {
            Some(i) => cut_to(content, total, &lines, i),
            None => Some(screen.to_string()),
        },
        Region::WholeWithoutPrompt => if current_prompt(&lines).is_some() {
            let r = String::new();
            assert(r@ =~= Seq::empty());
            Some(r)
        } else {
            Some(screen.to_string())
        },
        Region::PromptBlock => match current_prompt(&lines) {
            Some(i) => match find_last(&lines, LineKind::Marker, i) {
                Some(b) => {
                    assert(all[b as int] == lines@[b as int]@);
                    Some(string_of(lines[b]))
                },
                None => Some(empty_text()),
            },
            None => Some(empty_text()),
        },
        Region::AfterPromptBlock => match current_prompt(&lines) {
            Some(i) => match find_last(&lines, LineKind::Marker, i) {
                Some(b) => cut_from(content, total, &lines, b),
                None => Some(empty_text()),
            },
            None => Some(empty_text()),
        },
        Region::BoxBody => match find_box_top(&lines) {
            Some(top) => {
                let end: usize = match find_first(&lines, LineKind::Rule, top + 1) {
                    Some(end) => end,
                    None => lines.len(),
                };
                cut_between(content, total, &lines, top + 1, end)
            },
            None => Some(empty_text()),
        },
        Region::AboveBox => cut_above_box(content, total, &lines),
        Region::LastLineAboveBox => match cut_above_box(content, total, &lines) {
            Some(above) => Some(last_filled(above.as_str())),
            None => None,
        },
        Region::AfterLastRule => match find_last(&lines, LineKind::Rule, lines.len()) {
            Some(i) => cut_from(content, total, &lines, i + 1),
            None => Some(screen.to_string()),
        },
        Region::BottomLines(n) => cut_from(
            content,
            total,
            &lines,
            if lines.len() <= n {
                0
            } else {
                lines.len() - n
            },
        ),
        Region::BottomFilled(n) => match find_bottom(&lines, n) {
            Some(i) => cut_from(content, total, &lines, i),
            None => Some(empty_text()),
        },
        Region::TopFilled(n) => match find_top(&lines, n) {
            Some(i) => cut_to(content, total, &lines, i + 1),
            None => Some(empty_text()),
        },
        Region::Title | Region::Progress | Region::Nothing => Some(empty_text()),
    }
}

fn empty_text() -> (r: String)
    ensures
        r@ == Seq::<char>::empty(),
{
    String::new()
}

/// The screen has no carriage returns.
pub open spec fn has_no_returns(s: Seq<char>) -> bool {
    forall|i: int| 0 <= i < s.len() ==> #[trigger] s[i] != '\r'
}

/// Without carriage returns each line starts as many bytes behind the start of the screen
/// as the lines before it take.
proof fn lines_are_cut(content: Seq<char>, n: int)
    requires
        has_no_returns(content),
        0 <= n <= line_list(content).len(),
    ensures
        lines_bytes(line_list(content).take(n)) >= byte_len(content) || (exists|k: int|
            0 <= k <= content.len() && #[trigger] byte_len(content.take(k)) == lines_bytes(
                line_list(content).take(n),
            )),
    decreases content.len(),
{
    let lines = line_list(content);
    if n == 0 {
        assert(content.take(0) =~= Seq::empty());
        assert(byte_len(content.take(0)) == lines_bytes(lines.take(0)));
    } else {
        char_position_from_is_first(content, '\n', 0);
        match char_position(content, '\n') {
            Some(p) => {
                let rest = content.skip(p + 1);
                assert(has_no_returns(rest));
                lines_are_cut(rest, n - 1);
                let first = without_return(content.take(p));
                if p > 0 {
                    assert(content.take(p).last() == content[p - 1]);
                }
                assert(first == content.take(p));
                assert(lines.take(n) =~= seq![first] + line_list(rest).take(n - 1));
                lines_bytes_cons(first, line_list(rest).take(n - 1));
                assert(content.take(p + 1) =~= content.take(p).push('\n'));
                byte_len_push(content.take(p), '\n');
                assert(content =~= content.take(p + 1) + rest);
                byte_len_concat(content.take(p + 1), rest);
                if lines_bytes(line_list(rest).take(n - 1)) < byte_len(rest) {
                    let k = choose|k: int|
                        0 <= k <= rest.len() && #[trigger] byte_len(rest.take(k)) == lines_bytes(
                            line_list(rest).take(n - 1),
                        );
                    assert(content.take(p + 1 + k) =~= content.take(p + 1) + rest.take(k));
                    byte_len_concat(content.take(p + 1), rest.take(k));
                    assert(byte_len(content.take(p + 1 + k)) == lines_bytes(lines.take(n)));
                }
            },
            None => {
                assert(lines.take(n) =~= seq![content]);
                assert(seq![content].drop_last() =~= Seq::empty());
            },
        }
    }
}

/// A line more takes its bytes and one for its end.
pub proof fn lines_bytes_cons(first: Seq<char>, rest: Seq<Seq<char>>)
    ensures
        lines_bytes(seq![first] + rest) == byte_len(first) + 1 + lines_bytes(rest),
    decreases rest.len(),
{
    if rest.len() == 0 {
        let one = seq![first];
        assert(one + rest =~= one);
        assert(one.drop_last() =~= Seq::<Seq<char>>::empty());
        assert(one.last() == first);
        assert(lines_bytes(one.drop_last()) == 0);
        assert(lines_bytes(one) == byte_len(first) + 1);
    } else {
        lines_bytes_cons(first, rest.drop_last());
        assert((seq![first] + rest).drop_last() =~= seq![first] + rest.drop_last());
        assert((seq![first] + rest).last() == rest.last());
    }
}

/// Without carriage returns a screen can be cut before each of its lines.
proof fn lines_can_be_cut(content: Seq<char>, index: int)
    requires
        has_no_returns(content),
        0 <= index,
    ensures
        char_at_byte(content, line_start(content, index)) is Some,
{
    let lines = line_list(content);
    let n = if index < lines.len() {
        index
    } else {
        lines.len() as int
    };
    lines_are_cut(content, n);
    let bytes = lines_bytes(lines.take(n));
    if bytes < byte_len(content) {
        let k = choose|k: int|
            0 <= k <= content.len() && #[trigger] byte_len(content.take(k)) == bytes;
        cut_behind_prefix(content, k);
    } else {
        assert(content.take(content.len() as int) =~= content);
        cut_behind_prefix(content, content.len() as int);
    }
}

/// Every part of a screen without carriage returns can be read.
pub proof fn plain_screens_are_readable(region: Region, content: Seq<char>)
    requires
        has_no_returns(content),
    ensures
        region_text(region, content) is Some,
{
    let lines = line_list(content);
    last_line_bounds(lines, LineKind::Prompt);
    last_line_bounds(lines, LineKind::Rule);
    assert forall|i: int| 0 <= i implies #[trigger] from_line(content, i) is Some by {
        lines_can_be_cut(content, i);
    }
    assert forall|i: int| 0 <= i implies #[trigger] to_line(content, i) is Some by {
        lines_can_be_cut(content, i);
    }
    if let Some(i) = prompt_index(lines) {
        last_line_bounds(lines.take(i), LineKind::Marker);
    }
    if let Some(i) = last_line(lines, LineKind::Rule) {
        last_line_bounds(lines.take(i), LineKind::Rule);
    }
    match region {
        Region::BoxBody => {
            if let Some(top) = box_top(lines) {
                let end = match first_line(lines, LineKind::Rule, top + 1) {
                    Some(end) => end,
                    None => lines.len() as int,
                };
                first_line_bounds(lines, LineKind::Rule, top + 1);
                lines_can_be_cut(content, top + 1);
                lines_can_be_cut(content, end);
            }
        },
        Region::BottomFilled(n) => {
            bottom_start_bounds(lines, n as int);
        },
        Region::TopFilled(n) => {
            top_end_bounds(lines, n as int);
        },
        _ => {},
    }
}

proof fn first_line_bounds(lines: Seq<Seq<char>>, kind: LineKind, from: int)
    ensures
        first_line(lines, kind, from) matches Some(i) ==> from <= i < lines.len(),
    decreases lines.len() - from,
{
    if 0 <= from < lines.len() {
        first_line_bounds(lines, kind, from + 1);
    }
}

proof fn bottom_start_bounds(lines: Seq<Seq<char>>, count: int)
    ensures
        bottom_start(lines, count) matches Some(i) ==> 0 <= i < lines.len(),
    decreases lines.len(),
{
    if count > 0 && lines.len() > 0 {
        bottom_start_bounds(lines.drop_last(), count - 1);
        bottom_start_bounds(lines.drop_last(), count);
    }
}

proof fn top_end_bounds(lines: Seq<Seq<char>>, count: int)
    ensures
        top_end(lines, count) matches Some(i) ==> 0 <= i < lines.len(),
    decreases lines.len(),
{
    if count > 0 && lines.len() > 0 {
        top_end_bounds(lines.drop_first(), count - 1);
        top_end_bounds(lines.drop_first(), count);
    }
}

} // verus!
