//! Which part of a screen the name of a region stands for.
use crate::cli::texts::lines_add_up;
use crate::detect::manifest::{region, rule_text, DetectionInput};
use crate::detect::regions::{
    box_top, first_line, from_line, has_no_returns, is_line, is_rule, last_line, line_start,
    lines_bytes, lines_bytes_cons, named_region, prompt_index, region_text, rule_len, to_line,
    LineKind, Region,
};
use crate::text::chars::{
    begins, char_position, char_position_from_is, char_position_from_is_first, is_blank, trimmed,
    trimmed_start,
};
use crate::text::lines::{line_list, without_return};
use crate::text::utf8::{byte_len, byte_len_concat, byte_len_push, char_at_byte, cut_behind_prefix};
use vstd::prelude::*;

verus! {

/// A text that ends where a line does, or is empty.
pub open spec fn ends_with_a_line(s: Seq<char>) -> bool {
    s.len() == 0 || s.last() == '\n'
}

/// A text that is one line, without its end.
pub open spec fn is_one_line(s: Seq<char>) -> bool {
    s.len() > 0 && forall|i: int| 0 <= i < s.len() ==> #[trigger] s[i] != '\n' && s[i] != '\r'
}

/// No line of the text is of the kind.
pub open spec fn has_none(s: Seq<char>, kind: LineKind) -> bool {
    forall|i: int| 0 <= i < line_list(s).len() ==> !is_line(kind, #[trigger] line_list(s)[i])
}

/// The lines of a text: what stands before the first line feed, and then the lines behind it. What
/// follows the last line feed is a line where it is not empty.
pub proof fn lines_end_at_line_feeds(line: Seq<char>, rest: Seq<char>)
    requires
        is_one_line(line) || line.len() == 0,
    ensures
        line_list(line.push('\n') + rest) == seq![line] + line_list(rest),
        line_list(line.push('\r').push('\n') + rest) == seq![line] + line_list(rest),
        line.len() > 0 ==> line_list(line) == seq![line],
        line_list(Seq::empty()) == Seq::<Seq<char>>::empty(),
{
    let s = line.push('\n') + rest;
    assert forall|i: int| 0 <= i < line.len() implies s[i] != '\n' by {
        assert(s[i] == line[i]);
    }
    char_position_from_is(s, '\n', 0, line.len() as int);
    assert(s.take(line.len() as int) =~= line);
    assert(s.skip((line.len() + 1) as int) =~= rest);
    if line.len() > 0 {
        assert(line.last() == line[line.len() - 1]);
    }
    assert(without_return(line) == line);
    let t = line.push('\r').push('\n') + rest;
    assert forall|i: int| 0 <= i < line.len() + 1 implies t[i] != '\n' by {
        if i < line.len() {
            assert(t[i] == line[i]);
        }
    }
    char_position_from_is(t, '\n', 0, (line.len() + 1) as int);
    assert(t.take((line.len() + 1) as int) =~= line.push('\r'));
    assert(t.skip((line.len() + 2) as int) =~= rest);
    assert(line.push('\r').drop_last() =~= line);
    assert(without_return(line.push('\r')) == line);
    char_position_from_is_first(line, '\n', 0);
    assert(char_position(line, '\n') is None);
    if line.len() > 0 {
        assert(line_list(line) =~= seq![line]);
    }
}

/// Whole lines without carriage returns take the bytes of their text.
proof fn whole_lines_take_their_bytes(a: Seq<char>)
    requires
        ends_with_a_line(a),
        has_no_returns(a),
    ensures
        lines_bytes(line_list(a)) == byte_len(a),
    decreases a.len(),
{
    if a.len() > 0 {
        char_position_from_is_first(a, '\n', 0);
        assert(a[a.len() - 1] == '\n');
        let p = char_position(a, '\n')->0;
        let rest = a.skip(p + 1);
        if rest.len() > 0 {
            assert(rest.last() == a.last());
        }
        assert(has_no_returns(rest));
        whole_lines_take_their_bytes(rest);
        let first = without_return(a.take(p));
        if p > 0 {
            assert(a.take(p).last() == a[p - 1]);
        }
        assert(first == a.take(p));
        lines_bytes_cons(first, line_list(rest));
        assert(a.take(p + 1) =~= a.take(p).push('\n'));
        byte_len_push(a.take(p), '\n');
        assert(a =~= a.take(p + 1) + rest);
        byte_len_concat(a.take(p + 1), rest);
    }
}

/// Two texts, the first of which is whole lines, have the lines of both.
pub proof fn lines_of_both(a: Seq<char>, rest: Seq<char>)
    requires
        ends_with_a_line(a),
    ensures
        line_list(a + rest) == line_list(a) + line_list(rest),
{
    if a.len() > 0 {
        lines_add_up(a, rest);
    } else {
        assert(a + rest =~= rest);
        assert(line_list(a) =~= Seq::<Seq<char>>::empty());
        assert(line_list(a) + line_list(rest) =~= line_list(rest));
    }
}

/// Where whole lines come first, the text behind them begins where their lines end.
pub proof fn cut_behind_lines(a: Seq<char>, rest: Seq<char>)
    requires
        ends_with_a_line(a),
        has_no_returns(a + rest),
    ensures
        char_at_byte(a + rest, line_start(a + rest, line_list(a).len() as int)) == Some(
            a.len() as int,
        ),
        to_line(a + rest, line_list(a).len() as int) == Some(a),
        from_line(a + rest, line_list(a).len() as int) == Some(rest),
{
    let content = a + rest;
    lines_of_both(a, rest);
    assert(has_no_returns(a)) by {
        assert forall|i: int| 0 <= i < a.len() implies #[trigger] a[i] != '\r' by {
            assert(content[i] == a[i]);
        }
    }
    whole_lines_take_their_bytes(a);
    byte_len_concat(a, rest);
    let n = line_list(a).len() as int;
    assert(line_list(content).take(n) =~= line_list(a));
    assert(line_list(a).take(n) =~= line_list(a));
    assert(content.take(a.len() as int) =~= a);
    assert(content.skip(a.len() as int) =~= rest);
    cut_behind_prefix(content, a.len() as int);
}

/// The last line of a kind, where none behind it is of the kind.
proof fn last_of_kind(before: Seq<Seq<char>>, line: Seq<char>, after: Seq<Seq<char>>, kind: LineKind)
    requires
        is_line(kind, line),
        forall|i: int| 0 <= i < after.len() ==> !is_line(kind, #[trigger] after[i]),
    ensures
        last_line(before.push(line) + after, kind) == Some(before.len() as int),
    decreases after.len(),
{
    let all = before.push(line) + after;
    if after.len() == 0 {
        assert(all =~= before.push(line));
        assert(all.last() == line);
    } else {
        assert(all.last() == after.last());
        assert(after.last() == after[after.len() - 1]);
        assert(all.drop_last() =~= before.push(line) + after.drop_last());
        assert forall|i: int| 0 <= i < after.drop_last().len() implies !is_line(
            kind,
            #[trigger] after.drop_last()[i],
        ) by {
            assert(after.drop_last()[i] == after[i]);
        }
        last_of_kind(before, line, after.drop_last(), kind);
    }
}

/// Lines none of which is of a kind.
proof fn none_of_kind(lines: Seq<Seq<char>>, kind: LineKind, from: int)
    requires
        forall|i: int| 0 <= i < lines.len() ==> !is_line(kind, #[trigger] lines[i]),
    ensures
        last_line(lines, kind) is None,
        first_line(lines, kind, from) is None,
    decreases lines.len(), lines.len() - from,
{
    if 0 <= from < lines.len() {
        none_of_kind(lines, kind, from + 1);
    } else if lines.len() > 0 {
        assert(lines.last() == lines[lines.len() - 1]);
        assert forall|i: int| 0 <= i < lines.drop_last().len() implies !is_line(
            kind,
            #[trigger] lines.drop_last()[i],
        ) by {
            assert(lines.drop_last()[i] == lines[i]);
        }
        none_of_kind(lines.drop_last(), kind, 0);
    }
}

/// The first line of a kind behind others that are not.
proof fn first_of_kind(lines: Seq<Seq<char>>, kind: LineKind, from: int, at: int)
    requires
        0 <= from <= at < lines.len(),
        is_line(kind, lines[at]),
        forall|i: int| from <= i < at ==> !is_line(kind, #[trigger] lines[i]),
    ensures
        first_line(lines, kind, from) == Some(at),
    decreases at - from,
{
    if from < at {
        first_of_kind(lines, kind, from + 1, at);
    }
}

/// A line behind whole lines, with what follows it.
proof fn lines_around(a: Seq<char>, line: Seq<char>, rest: Seq<char>)
    requires
        ends_with_a_line(a),
        is_one_line(line),
    ensures
        line_list(a + line.push('\n') + rest) == line_list(a).push(line) + line_list(rest),
        line_list(a + line.push('\n')) == line_list(a).push(line),
        a + line.push('\n') + rest == a + (line.push('\n') + rest),
        ends_with_a_line(a + line.push('\n')),
{
    let head = a + line.push('\n');
    assert(head.last() == '\n');
    assert(head + rest =~= a + (line.push('\n') + rest));
    lines_of_both(a, line.push('\n') + rest);
    lines_end_at_line_feeds(line, rest);
    assert(line_list(a) + (seq![line] + line_list(rest)) =~= line_list(a).push(line) + line_list(
        rest,
    ));
    lines_end_at_line_feeds(line, Seq::empty());
    assert(line.push('\n') + Seq::<char>::empty() =~= line.push('\n'));
    lines_of_both(a, line.push('\n'));
    assert(seq![line] + Seq::<Seq<char>>::empty() =~= seq![line]);
    assert(line_list(a) + seq![line] =~= line_list(a).push(line));
}

/// The names of the regions can be told apart.
proof fn names_differ(name: Seq<char>)
    ensures
        trimmed(name) == "osc_title"@ ==> named_region(name) == Region::Title,
        trimmed(name) == "osc_progress"@ ==> named_region(name) == Region::Progress,
        trimmed(name) == "whole_recent"@ ==> named_region(name) == Region::Whole,
        trimmed(name) == "after_last_prompt_marker"@ ==> named_region(name)
            == Region::AfterLastPrompt,
        trimmed(name) == "before_current_prompt_marker"@ ==> named_region(name)
            == Region::BeforePrompt,
        trimmed(name) == "whole_recent_without_current_prompt_marker"@ ==> named_region(name)
            == Region::WholeWithoutPrompt,
        trimmed(name) == "current_prompt_block_marker"@ ==> named_region(name)
            == Region::PromptBlock,
        trimmed(name) == "after_current_prompt_block_marker"@ ==> named_region(name)
            == Region::AfterPromptBlock,
        trimmed(name) == "prompt_box_body"@ ==> named_region(name) == Region::BoxBody,
        trimmed(name) == "above_prompt_box"@ ==> named_region(name) == Region::AboveBox,
        trimmed(name) == "last_non_empty_above_prompt_box"@ ==> named_region(name)
            == Region::LastLineAboveBox,
        trimmed(name) == "after_last_horizontal_rule"@ ==> named_region(name)
            == Region::AfterLastRule,
{
    reveal_strlit("osc_title");
    reveal_strlit("osc_progress");
    reveal_strlit("whole_recent");
    reveal_strlit("after_last_prompt_marker");
    reveal_strlit("before_current_prompt_marker");
    reveal_strlit("whole_recent_without_current_prompt_marker");
    reveal_strlit("current_prompt_block_marker");
    reveal_strlit("after_current_prompt_block_marker");
    reveal_strlit("prompt_box_body");
    reveal_strlit("above_prompt_box");
    reveal_strlit("last_non_empty_above_prompt_box");
    reveal_strlit("after_last_horizontal_rule");
    assert("osc_title"@.len() == 9);
    assert("osc_progress"@.len() == 12);
    assert("whole_recent"@.len() == 12);
    assert("after_last_prompt_marker"@.len() == 24);
    assert("before_current_prompt_marker"@.len() == 28);
    assert("whole_recent_without_current_prompt_marker"@.len() == 42);
    assert("current_prompt_block_marker"@.len() == 27);
    assert("after_current_prompt_block_marker"@.len() == 33);
    assert("prompt_box_body"@.len() == 15);
    assert("above_prompt_box"@.len() == 16);
    assert("last_non_empty_above_prompt_box"@.len() == 31);
    assert("after_last_horizontal_rule"@.len() == 26);
    assert("osc_progress"@[0] != "whole_recent"@[0]);
}

/// Where the prompt box stands in a screen.
proof fn box_is(a: Seq<char>, upper: Seq<char>, b: Seq<char>, lower: Seq<char>, c: Seq<char>)
    requires
        ends_with_a_line(a),
        ends_with_a_line(b),
        is_one_line(upper),
        is_one_line(lower),
        is_rule(upper),
        is_rule(lower),
        has_none(b, LineKind::Rule),
        has_none(c, LineKind::Rule),
    ensures
        ({
            let top = a + upper.push('\n');
            let content = top + b + lower.push('\n') + c;
            let n = line_list(a).len() as int;
            let m = line_list(b).len() as int;
            let lines = line_list(content);
            &&& ends_with_a_line(top + b)
            &&& line_list(top + b).len() == n + 1 + m
            &&& lines.len() > n + 1 + m
            &&& last_line(lines, LineKind::Rule) == Some(n + 1 + m)
            &&& box_top(lines) == Some(n)
            &&& first_line(lines, LineKind::Rule, n + 1) == Some(n + 1 + m)
        }),
{
    let top = a + upper.push('\n');
    let above = top + b;
    let n = line_list(a).len() as int;
    let m = line_list(b).len() as int;
    lines_around(a, upper, b);
    if b.len() > 0 {
        assert(above.last() == b.last());
    } else {
        assert(above =~= top);
    }
    lines_around(above, lower, c);
    let content = above + lower.push('\n') + c;
    let lines = line_list(content);
    assert(line_list(above) == line_list(a).push(upper) + line_list(b));
    last_of_kind(line_list(above), lower, line_list(c), LineKind::Rule);
    assert(lines.take(n + 1 + m) =~= line_list(above));
    last_of_kind(line_list(a), upper, line_list(b), LineKind::Rule);
    assert(lines[n + 1 + m] == lower);
    assert forall|i: int| n + 1 <= i < n + 1 + m implies !is_line(
        LineKind::Rule,
        #[trigger] lines[i],
    ) by {
        assert(lines[i] == line_list(above)[i]);
        assert(line_list(above)[i] == line_list(b)[i - n - 1]);
    }
    first_of_kind(lines, LineKind::Rule, n + 1, n + 1 + m);
}

/// Five texts one behind the other, cut in two between any of them.
proof fn five_are_cut(a: Seq<char>, u: Seq<char>, b: Seq<char>, l: Seq<char>, c: Seq<char>)
    ensures
        a + u + b + l + c == a + (u + b + l + c),
        a + u + b + l + c == (a + u) + (b + l + c),
        a + u + b + l + c == (a + u + b) + (l + c),
        (a + u + b + l + c).subrange((a + u).len() as int, (a + u + b).len() as int) == b,
{
    assert(a + u + b + l + c =~= a + (u + b + l + c));
    assert(a + u + b + l + c =~= (a + u) + (b + l + c));
    assert(a + u + b + l + c =~= (a + u + b) + (l + c));
    assert((a + u + b + l + c).subrange((a + u).len() as int, (a + u + b).len() as int) =~= b);
}

/// Two horizontal rules enclose the prompt box, the last two on the screen. What is above the
/// upper one, between the two and below the lower one is what the regions that are named after
/// that show, to the letter.
pub proof fn rules_enclose_the_prompt_box(
    input: DetectionInput,
    name: Seq<char>,
    a: Seq<char>,
    upper: Seq<char>,
    b: Seq<char>,
    lower: Seq<char>,
    c: Seq<char>,
)
    requires
        input.screen@ == a + upper.push('\n') + b + lower.push('\n') + c,
        has_no_returns(input.screen@),
        ends_with_a_line(a),
        ends_with_a_line(b),
        is_one_line(upper),
        is_one_line(lower),
        is_rule(upper),
        is_rule(lower),
        has_none(b, LineKind::Rule),
        has_none(c, LineKind::Rule),
    ensures
        trimmed(name) == "above_prompt_box"@ ==> rule_text(input, name) == Some(a),
        trimmed(name) == "prompt_box_body"@ ==> rule_text(input, name) == Some(b),
        trimmed(name) == "after_last_horizontal_rule"@ ==> rule_text(input, name) == Some(c),
{
    let content = input.screen@;
    let top = a + upper.push('\n');
    let above = top + b;
    let whole = above + lower.push('\n');
    let lines = line_list(content);
    let n = line_list(a).len() as int;
    let m = line_list(b).len() as int;
    five_are_cut(a, upper.push('\n'), b, lower.push('\n'), c);
    box_is(a, upper, b, lower, c);
    assert(line_list(top).len() == n + 1 && ends_with_a_line(top)) by {
        lines_around(a, upper, b);
    }
    assert(line_list(whole).len() == n + m + 2 && ends_with_a_line(whole)) by {
        lines_around(above, lower, c);
    }
    assert(to_line(content, n) == Some(a)) by {
        cut_behind_lines(a, upper.push('\n') + b + lower.push('\n') + c);
    }
    assert(char_at_byte(content, line_start(content, n + 1)) == Some(top.len() as int)) by {
        cut_behind_lines(top, b + lower.push('\n') + c);
    }
    assert(char_at_byte(content, line_start(content, n + 1 + m)) == Some(above.len() as int)) by {
        cut_behind_lines(above, lower.push('\n') + c);
    }
    assert(from_line(content, n + m + 2) == Some(c)) by {
        cut_behind_lines(whole, c);
    }
    assert(region_text(Region::AboveBox, content) == Some(a));
    assert(region_text(Region::BoxBody, content) == Some(b));
    assert(region_text(Region::AfterLastRule, content) == Some(c));
    names_differ(name);
}

/// A screen with fewer than two horizontal rules has no prompt box: all of it is above, and
/// nothing inside.
pub proof fn without_two_rules_there_is_no_box(
    input: DetectionInput,
    name: Seq<char>,
    a: Seq<char>,
    rule: Seq<char>,
    c: Seq<char>,
)
    requires
        has_none(input.screen@, LineKind::Rule) || {
            &&& input.screen@ == a + rule.push('\n') + c
            &&& ends_with_a_line(a)
            &&& is_one_line(rule)
            &&& is_rule(rule)
            &&& has_none(a, LineKind::Rule)
            &&& has_none(c, LineKind::Rule)
        },
    ensures
        trimmed(name) == "above_prompt_box"@ ==> rule_text(input, name) == Some(input.screen@),
        trimmed(name) == "prompt_box_body"@ ==> rule_text(input, name) == Some(Seq::<char>::empty()),
        has_none(input.screen@, LineKind::Rule) && trimmed(name) == "after_last_horizontal_rule"@
            ==> rule_text(input, name) == Some(input.screen@),
{
    names_differ(name);
    if has_none(input.screen@, LineKind::Rule) {
        none_of_kind(line_list(input.screen@), LineKind::Rule, 0);
    } else {
        lines_around(a, rule, c);
        last_of_kind(line_list(a), rule, line_list(c), LineKind::Rule);
        let lines = line_list(input.screen@);
        assert(lines.take(line_list(a).len() as int) =~= line_list(a));
        none_of_kind(line_list(a), LineKind::Rule, 0);
    }
}

/// What stands in the last line above the prompt box that is not blank.
pub proof fn last_line_above_the_box(
    input: DetectionInput,
    name: Seq<char>,
    a: Seq<char>,
    line: Seq<char>,
    blanks: Seq<char>,
    upper: Seq<char>,
    b: Seq<char>,
    lower: Seq<char>,
    c: Seq<char>,
)
    requires
        input.screen@ == (a + line.push('\n') + blanks) + upper.push('\n') + b + lower.push('\n') + c,
        has_no_returns(input.screen@),
        ends_with_a_line(a),
        is_one_line(line),
        !is_blank(line),
        ends_with_a_line(blanks),
        has_none(blanks, LineKind::Filled),
        ends_with_a_line(b),
        is_one_line(upper),
        is_one_line(lower),
        is_rule(upper),
        is_rule(lower),
        has_none(b, LineKind::Rule),
        has_none(c, LineKind::Rule),
        trimmed(name) == "last_non_empty_above_prompt_box"@,
    ensures
        rule_text(input, name) == Some(line),
{
    names_differ(name);
    let all = a + line.push('\n') + blanks;
    lines_around(a, line, blanks);
    if blanks.len() > 0 {
        assert(all.last() == blanks.last());
    } else {
        assert(all =~= a + line.push('\n'));
    }
    box_is(all, upper, b, lower, c);
    assert(input.screen@ =~= all + (upper.push('\n') + b + lower.push('\n') + c));
    cut_behind_lines(all, upper.push('\n') + b + lower.push('\n') + c);
    last_of_kind(line_list(a), line, line_list(blanks), LineKind::Filled);
    assert(line_list(all)[line_list(a).len() as int] == line);
}

/// A horizontal rule is drawn with U+2500 throughout, or begins with three of them; white space
/// before it does not matter. A line that begins otherwise is none, nor one that goes on with
/// other text behind one or two.
pub proof fn rules_are_drawn(line: Seq<char>, drawn: int)
    requires
        trimmed(line).len() >= drawn >= 0,
        forall|i: int| 0 <= i < drawn ==> #[trigger] trimmed(line)[i] == '\u{2500}',
        drawn < trimmed(line).len() ==> trimmed(line)[drawn] != '\u{2500}',
    ensures
        drawn == 0 ==> !is_rule(line),
        drawn >= 3 ==> is_rule(line),
        drawn > 0 && drawn == trimmed(line).len() ==> is_rule(line),
        0 < drawn < 3 && drawn < trimmed(line).len() && !is_blank(trimmed(line).skip(drawn))
            ==> !is_rule(line),
{
    rule_len_is(trimmed(line), drawn);
    let rest = trimmed(line).skip(drawn);
    if drawn == trimmed(line).len() {
        assert(rest =~= Seq::empty());
    }
    if trimmed_start(rest).len() == 0 {
        assert(trimmed(rest).len() == 0);
    }
}

proof fn rule_len_is(s: Seq<char>, n: int)
    requires
        0 <= n <= s.len(),
        forall|i: int| 0 <= i < n ==> #[trigger] s[i] == '\u{2500}',
        n < s.len() ==> s[n] != '\u{2500}',
    ensures
        rule_len(s) == n,
    decreases n,
{
    if n > 0 {
        let rest = s.drop_first();
        assert forall|i: int| 0 <= i < n - 1 implies #[trigger] rest[i] == '\u{2500}' by {
            assert(rest[i] == s[i + 1]);
        }
        if n - 1 < rest.len() {
            assert(rest[n - 1] == s[n]);
        }
        rule_len_is(rest, n - 1);
    }
}

/// A prompt is the sign U+203A alone, or before a space. A block begins with a bullet, a square, a
/// cross or a check mark.
pub proof fn prompts_and_blocks_are_told_by_their_signs(line: Seq<char>)
    ensures
        is_line(LineKind::Prompt, line) <==> (line.len() > 0 && line[0] == '\u{203a}' && (line.len()
            == 1 || line[1] == ' ')),
        is_line(LineKind::Marker, line) <==> (line.len() > 0 && (line[0] == '\u{2022}' || line[0]
            == '\u{25a0}' || line[0] == '\u{2717}' || line[0] == '\u{2713}')),
        is_line(LineKind::Filled, line) <==> !is_blank(line),
{
    reveal_strlit("\u{203a}");
    reveal_strlit("\u{203a} ");
    assert("\u{203a}"@ =~= seq!['\u{203a}']);
    assert("\u{203a} "@ =~= seq!['\u{203a}', ' ']);
    if line.len() >= 2 {
        assert(line.subrange(0, 2)[0] == line[0] && line.subrange(0, 2)[1] == line[1]);
        if line[0] == '\u{203a}' && line[1] == ' ' {
            assert(line.subrange(0, 2) =~= "\u{203a} "@);
        }
    }
    if line.len() == 1 && line[0] == '\u{203a}' {
        assert(line =~= "\u{203a}"@);
    }
}

/// The whole screen, the title and the progress are what they are called.
pub proof fn plain_regions_are_their_texts(input: DetectionInput, name: Seq<char>)
    ensures
        trimmed(name) == "osc_title"@ ==> rule_text(input, name) == Some(input.osc_title@),
        trimmed(name) == "osc_progress"@ ==> rule_text(input, name) == Some(input.osc_progress@),
        trimmed(name) == "whole_recent"@ ==> rule_text(input, name) == Some(input.screen@),
{
    names_differ(name);
}

/// The last prompt parts the screen: what is below it is behind it, and what is above it before
/// it, as long as no block begins below. With a block below, the prompt is not the current one.
pub proof fn the_last_prompt_parts_the_screen(
    input: DetectionInput,
    name: Seq<char>,
    a: Seq<char>,
    prompt: Seq<char>,
    c: Seq<char>,
)
    requires
        input.screen@ == a + prompt.push('\n') + c,
        has_no_returns(input.screen@),
        ends_with_a_line(a),
        is_one_line(prompt),
        is_line(LineKind::Prompt, prompt),
        has_none(c, LineKind::Prompt),
    ensures
        trimmed(name) == "after_last_prompt_marker"@ ==> rule_text(input, name) == Some(c),
        has_none(c, LineKind::Marker) && trimmed(name) == "before_current_prompt_marker"@
            ==> rule_text(input, name) == Some(a),
        !has_none(c, LineKind::Marker) && trimmed(name) == "before_current_prompt_marker"@
            ==> rule_text(input, name) == Some(input.screen@),
        has_none(c, LineKind::Marker) && trimmed(name)
            == "whole_recent_without_current_prompt_marker"@ ==> rule_text(input, name) == Some(
            Seq::<char>::empty(),
        ),
        !has_none(c, LineKind::Marker) && trimmed(name)
            == "whole_recent_without_current_prompt_marker"@ ==> rule_text(input, name) == Some(
            input.screen@,
        ),
{
    names_differ(name);
    prompt_is(a, prompt, c);
    lines_around(a, prompt, c);
    cut_behind_lines(a, prompt.push('\n') + c);
    cut_behind_lines(a + prompt.push('\n'), c);
}

/// Without a prompt all of the screen is before it and behind it.
pub proof fn without_a_prompt_all_is_shown(input: DetectionInput, name: Seq<char>)
    requires
        has_none(input.screen@, LineKind::Prompt),
    ensures
        trimmed(name) == "after_last_prompt_marker"@ || trimmed(name)
            == "before_current_prompt_marker"@ || trimmed(name)
            == "whole_recent_without_current_prompt_marker"@ ==> rule_text(input, name) == Some(
            input.screen@,
        ),
        trimmed(name) == "current_prompt_block_marker"@ || trimmed(name)
            == "after_current_prompt_block_marker"@ ==> rule_text(input, name) == Some(
            Seq::<char>::empty(),
        ),
{
    names_differ(name);
    none_of_kind(line_list(input.screen@), LineKind::Prompt, 0);
}

/// Where the current prompt stands.
proof fn prompt_is(a: Seq<char>, prompt: Seq<char>, c: Seq<char>)
    requires
        ends_with_a_line(a),
        is_one_line(prompt),
        is_line(LineKind::Prompt, prompt),
        has_none(c, LineKind::Prompt),
    ensures
        ({
            let lines = line_list(a + prompt.push('\n') + c);
            let n = line_list(a).len() as int;
            &&& last_line(lines, LineKind::Prompt) == Some(n)
            &&& has_none(c, LineKind::Marker) ==> prompt_index(lines) == Some(n)
            &&& !has_none(c, LineKind::Marker) ==> prompt_index(lines) is None
        }),
{
    lines_around(a, prompt, c);
    let lines = line_list(a + prompt.push('\n') + c);
    let n = line_list(a).len() as int;
    last_of_kind(line_list(a), prompt, line_list(c), LineKind::Prompt);
    if has_none(c, LineKind::Marker) {
        if first_line(lines, LineKind::Marker, n + 1) is Some {
            first_is_of_kind(lines, LineKind::Marker, n + 1);
            let i = first_line(lines, LineKind::Marker, n + 1)->0;
            assert(lines[i] == line_list(c)[i - n - 1]);
        }
    } else {
        let k = choose|k: int|
            0 <= k < line_list(c).len() && is_line(LineKind::Marker, #[trigger] line_list(c)[k]);
        assert(lines[n + 1 + k] == line_list(c)[k]);
        some_is_found(lines, LineKind::Marker, n + 1, n + 1 + k);
    }
}

proof fn first_is_of_kind(lines: Seq<Seq<char>>, kind: LineKind, from: int)
    requires
        first_line(lines, kind, from) is Some,
    ensures
        first_line(lines, kind, from) matches Some(i) && from <= i < lines.len() && is_line(
            kind,
            lines[i],
        ),
    decreases lines.len() - from,
{
    if 0 <= from < lines.len() && !is_line(kind, lines[from]) {
        first_is_of_kind(lines, kind, from + 1);
    }
}

proof fn some_is_found(lines: Seq<Seq<char>>, kind: LineKind, from: int, at: int)
    requires
        0 <= from <= at < lines.len(),
        is_line(kind, lines[at]),
    ensures
        first_line(lines, kind, from) is Some,
    decreases at - from,
{
    if from < at && !is_line(kind, lines[from]) {
        some_is_found(lines, kind, from + 1, at);
    }
}

/// The block of the current prompt begins at the last marker above it: that line, and the screen
/// from it on.
pub proof fn the_block_above_the_prompt(
    input: DetectionInput,
    name: Seq<char>,
    a: Seq<char>,
    marker: Seq<char>,
    b: Seq<char>,
    prompt: Seq<char>,
    c: Seq<char>,
)
    requires
        input.screen@ == a + marker.push('\n') + b + prompt.push('\n') + c,
        has_no_returns(input.screen@),
        ends_with_a_line(a),
        ends_with_a_line(b),
        is_one_line(marker),
        is_one_line(prompt),
        is_line(LineKind::Marker, marker),
        has_none(b, LineKind::Marker),
        is_line(LineKind::Prompt, prompt),
        has_none(c, LineKind::Prompt),
        has_none(c, LineKind::Marker),
    ensures
        trimmed(name) == "current_prompt_block_marker"@ ==> rule_text(input, name) == Some(marker),
        trimmed(name) == "after_current_prompt_block_marker"@ ==> rule_text(input, name) == Some(
            marker.push('\n') + b + prompt.push('\n') + c,
        ),
{
    let content = input.screen@;
    let above = a + marker.push('\n') + b;
    let lines = line_list(content);
    let n = line_list(a).len() as int;
    five_are_cut(a, marker.push('\n'), b, prompt.push('\n'), c);
    lines_around(a, marker, b);
    assert(ends_with_a_line(above)) by {
        if b.len() > 0 {
            assert(above.last() == b.last());
        } else {
            assert(above =~= a + marker.push('\n'));
        }
    }
    prompt_is(above, prompt, c);
    assert(lines == line_list(above).push(prompt) + line_list(c)) by {
        lines_around(above, prompt, c);
    }
    assert(lines.take(line_list(above).len() as int) =~= line_list(above));
    last_of_kind(line_list(a), marker, line_list(b), LineKind::Marker);
    assert(lines[n] == line_list(above)[n]);
    assert(from_line(content, n) == Some(marker.push('\n') + b + prompt.push('\n') + c)) by {
        cut_behind_lines(a, marker.push('\n') + b + prompt.push('\n') + c);
    }
    names_differ(name);
}

/// What a rule reads by the names of the box: what stands above the upper of the last two rules,
/// and what stands between them.
pub proof fn the_box_is_read(
    input: &DetectionInput,
    name: &str,
    r: Option<String>,
    a: Seq<char>,
    upper: Seq<char>,
    b: Seq<char>,
    lower: Seq<char>,
    c: Seq<char>,
)
    requires
        call_ensures(region, (input, name), r),
        input.screen@ == a + upper.push('\n') + b + lower.push('\n') + c,
        has_no_returns(input.screen@),
        ends_with_a_line(a),
        ends_with_a_line(b),
        is_one_line(upper),
        is_one_line(lower),
        is_rule(upper),
        is_rule(lower),
        has_none(b, LineKind::Rule),
        has_none(c, LineKind::Rule),
    ensures
        trimmed(name@) == "above_prompt_box"@ ==> (r matches Some(text) && text@ == a),
        trimmed(name@) == "prompt_box_body"@ ==> (r matches Some(text) && text@ == b),
{
    rules_enclose_the_prompt_box(*input, name@, a, upper, b, lower, c);
}

} // verus!
