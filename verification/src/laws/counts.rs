//! Regions of a screen that hold a number of lines.
use crate::detect::regions::{
    bottom_start, has_no_returns, inside_brackets, is_line, named_region, region_text, top_end,
    LineKind, Region,
};
use crate::laws::regions::{cut_behind_lines, ends_with_a_line, has_none, lines_of_both};
use crate::text::chars::{begins, finishes, trimmed, trimmed_of_solid};
use crate::text::lines::line_list;
use crate::text::numbers::{decimal, decimal_round_trip};
use vstd::prelude::*;

verus! {

/// How many lines are not blank.
pub open spec fn filled_count(lines: Seq<Seq<char>>) -> nat {
    lines.filter(|l: Seq<char>| is_line(LineKind::Filled, l)).len()
}

proof fn count_of_more(lines: Seq<Seq<char>>, line: Seq<char>)
    ensures
        filled_count(lines.push(line)) == filled_count(lines) + if is_line(LineKind::Filled, line) {
            1nat
        } else {
            0nat
        },
        filled_count(Seq::empty()) == 0,
{
    reveal(Seq::filter);
    assert(lines.push(line).drop_last() =~= lines);
}

proof fn count_of_first(line: Seq<char>, lines: Seq<Seq<char>>)
    ensures
        filled_count(seq![line] + lines) == filled_count(lines) + if is_line(
            LineKind::Filled,
            line,
        ) {
            1nat
        } else {
            0nat
        },
    decreases lines.len(),
{
    let none = Seq::<Seq<char>>::empty();
    if lines.len() == 0 {
        assert(seq![line] + lines =~= none.push(line));
        assert(lines =~= none);
        count_of_more(none, line);
    } else {
        let shorter = lines.drop_last();
        count_of_first(line, shorter);
        assert(seq![line] + lines =~= (seq![line] + shorter).push(lines.last()));
        assert(lines =~= shorter.push(lines.last()));
        count_of_more(seq![line] + shorter, lines.last());
        count_of_more(shorter, lines.last());
    }
}

proof fn count_of_filled(lines: Seq<Seq<char>>, i: int)
    requires
        0 <= i < lines.len(),
        is_line(LineKind::Filled, lines[i]),
    ensures
        filled_count(lines) >= 1,
    decreases lines.len(),
{
    let shorter = lines.drop_last();
    assert(lines =~= shorter.push(lines.last()));
    count_of_more(shorter, lines.last());
    if i < shorter.len() {
        assert(shorter[i] == lines[i]);
        count_of_filled(shorter, i);
    }
}

proof fn count_of_blank(lines: Seq<Seq<char>>)
    ensures
        filled_count(lines) == 0 <==> forall|i: int|
            0 <= i < lines.len() ==> !is_line(LineKind::Filled, #[trigger] lines[i]),
    decreases lines.len(),
{
    if lines.len() == 0 {
        assert(lines =~= Seq::<Seq<char>>::empty());
        count_of_more(lines, Seq::empty());
    } else {
        let shorter = lines.drop_last();
        count_of_blank(shorter);
        assert(lines =~= shorter.push(lines.last()));
        count_of_more(shorter, lines.last());
        if filled_count(lines) == 0 {
            assert forall|i: int| 0 <= i < lines.len() implies !is_line(
                LineKind::Filled,
                #[trigger] lines[i],
            ) by {
                if i < shorter.len() {
                    assert(shorter[i] == lines[i]);
                }
            }
        }
        if forall|i: int|
            0 <= i < lines.len() ==> !is_line(LineKind::Filled, #[trigger] lines[i]) {
            assert(!is_line(LineKind::Filled, lines[lines.len() - 1]));
            assert forall|i: int| 0 <= i < shorter.len() implies !is_line(
                LineKind::Filled,
                #[trigger] shorter[i],
            ) by {
                assert(shorter[i] == lines[i]);
            }
        }
    }
}

proof fn no_bottom(lines: Seq<Seq<char>>, count: int)
    requires
        filled_count(lines) == 0 || count <= 0,
    ensures
        bottom_start(lines, count) is None,
    decreases lines.len(),
{
    if lines.len() > 0 && count > 0 {
        let shorter = lines.drop_last();
        assert(lines =~= shorter.push(lines.last()));
        count_of_more(shorter, lines.last());
        no_bottom(shorter, count);
    }
}

proof fn bottom_of_both(a: Seq<Seq<char>>, b: Seq<Seq<char>>, count: int)
    requires
        b.len() > 0,
        is_line(LineKind::Filled, b[0]),
        filled_count(b) == count || filled_count(b) < count && filled_count(a) == 0,
    ensures
        bottom_start(a + b, count) == Some(a.len() as int),
    decreases b.len(),
{
    let both = a + b;
    let shorter = b.drop_last();
    assert(b =~= shorter.push(b.last()));
    assert(both.drop_last() =~= a + shorter);
    assert(both.last() == b.last());
    count_of_more(shorter, b.last());
    if shorter.len() == 0 {
        assert(shorter =~= Seq::<Seq<char>>::empty());
        assert(a + shorter =~= a);
        no_bottom(a, count - 1);
    } else {
        assert(shorter[0] == b[0]);
        count_of_filled(shorter, 0);
        if is_line(LineKind::Filled, b.last()) {
            bottom_of_both(a, shorter, count - 1);
        } else {
            bottom_of_both(a, shorter, count);
        }
    }
}

proof fn no_top(lines: Seq<Seq<char>>, count: int)
    requires
        filled_count(lines) == 0 || count <= 0,
    ensures
        top_end(lines, count) is None,
    decreases lines.len(),
{
    if lines.len() > 0 && count > 0 {
        let rest = lines.drop_first();
        assert(lines =~= seq![lines[0]] + rest);
        count_of_first(lines[0], rest);
        no_top(rest, count);
    }
}

proof fn top_of_both(a: Seq<Seq<char>>, b: Seq<Seq<char>>, count: int)
    requires
        a.len() > 0,
        is_line(LineKind::Filled, a.last()),
        filled_count(a) == count || filled_count(a) < count && filled_count(b) == 0,
    ensures
        top_end(a + b, count) == Some(a.len() - 1),
    decreases a.len(),
{
    let both = a + b;
    let rest = a.drop_first();
    assert(a =~= seq![a[0]] + rest);
    assert(both.drop_first() =~= rest + b);
    assert(both[0] == a[0]);
    count_of_first(a[0], rest);
    if rest.len() == 0 {
        assert(rest =~= Seq::<Seq<char>>::empty());
        assert(rest + b =~= b);
        count_of_more(rest, Seq::empty());
        no_top(b, count - 1);
    } else {
        assert(rest.last() == a.last());
        count_of_filled(rest, rest.len() - 1);
        if is_line(LineKind::Filled, a[0]) {
            top_of_both(rest, b, count - 1);
        } else {
            top_of_both(rest, b, count);
        }
    }
}

/// Of a screen without carriage returns the region of the bottom lines is its last lines, as many
/// as are asked for; where it has no more than these it is the whole screen.
pub proof fn the_last_lines(a: Seq<char>, b: Seq<char>, n: usize)
    requires
        ends_with_a_line(a),
        has_no_returns(a + b),
        line_list(b).len() == n || line_list(b).len() < n && a.len() == 0,
    ensures
        region_text(Region::BottomLines(n), a + b) == Some(b),
{
    lines_of_both(a, b);
    cut_behind_lines(a, b);
    if a.len() == 0 {
        assert(line_list(a) =~= Seq::<Seq<char>>::empty());
        assert(a + b =~= b);
    }
}

/// Of a screen without carriage returns the region of the bottom filled lines begins at the line
/// from which on so many lines are not blank, or at the first such line where there are fewer. It
/// runs to the end of the screen, and is empty where no line is asked for or none is filled.
pub proof fn the_last_filled_lines(a: Seq<char>, b: Seq<char>, n: usize)
    requires
        ends_with_a_line(a),
        has_no_returns(a + b),
    ensures
        line_list(b).len() > 0 && is_line(LineKind::Filled, line_list(b)[0]) && (filled_count(
            line_list(b),
        ) == n || filled_count(line_list(b)) < n && has_none(a, LineKind::Filled)) ==> region_text(
            Region::BottomFilled(n),
            a + b,
        ) == Some(b),
        n == 0 || has_none(a + b, LineKind::Filled) ==> region_text(Region::BottomFilled(n), a + b)
            == Some(Seq::<char>::empty()),
{
    lines_of_both(a, b);
    cut_behind_lines(a, b);
    count_of_blank(line_list(a));
    count_of_blank(line_list(a + b));
    let lb = line_list(b);
    if lb.len() > 0 && is_line(LineKind::Filled, lb[0]) && (filled_count(lb) == n || filled_count(
        lb,
    ) < n && has_none(a, LineKind::Filled)) {
        bottom_of_both(line_list(a), lb, n as int);
    }
    if n == 0 || has_none(a + b, LineKind::Filled) {
        no_bottom(line_list(a + b), n as int);
    }
}

/// Of a screen without carriage returns the region of the top filled lines ends with the line at
/// which so many lines were not blank, or with the last such line where there are fewer. It begins
/// with the screen, and is empty where no line is asked for or none is filled.
pub proof fn the_first_filled_lines(a: Seq<char>, b: Seq<char>, n: usize)
    requires
        ends_with_a_line(a),
        has_no_returns(a + b),
    ensures
        line_list(a).len() > 0 && is_line(LineKind::Filled, line_list(a).last()) && (filled_count(
            line_list(a),
        ) == n || filled_count(line_list(a)) < n && has_none(b, LineKind::Filled)) ==> region_text(
            Region::TopFilled(n),
            a + b,
        ) == Some(a),
        n == 0 || has_none(a + b, LineKind::Filled) ==> region_text(Region::TopFilled(n), a + b)
            == Some(Seq::<char>::empty()),
{
    lines_of_both(a, b);
    cut_behind_lines(a, b);
    count_of_blank(line_list(b));
    count_of_blank(line_list(a + b));
    let la = line_list(a);
    if la.len() > 0 && is_line(LineKind::Filled, la.last()) && (filled_count(la) == n
        || filled_count(la) < n && has_none(b, LineKind::Filled)) {
        top_of_both(la, line_list(b), n as int);
    }
    if n == 0 || has_none(a + b, LineKind::Filled) {
        no_top(line_list(a + b), n as int);
    }
}

proof fn brackets_hold(name: Seq<char>, digits: Seq<char>)
    ensures
        inside_brackets(name + "("@ + digits + ")"@, name) == Some(digits),
{
    reveal_strlit("(");
    reveal_strlit(")");
    let t = name + "("@ + digits + ")"@;
    let n = name.len() as int;
    assert(t.subrange(0, n) =~= name);
    let rest = t.skip(n);
    assert(rest =~= "("@ + digits + ")"@);
    assert(rest.subrange(0, 1) =~= "("@);
    let inner = rest.skip(1);
    assert(inner =~= digits + ")"@);
    assert(finishes(inner, ")"@)) by {
        assert(inner.subrange(inner.len() - 1, inner.len() as int) =~= ")"@);
    }
    assert(inner.take(inner.len() - 1) =~= digits);
}

proof fn decimal_begins(n: nat)
    ensures
        n > 0 ==> decimal(n)[0] != '0',
        decimal(n).len() > 0,
        forall|i: int| 0 <= i < decimal(n).len() ==> '0' <= #[trigger] decimal(n)[i] <= '9',
    decreases n,
{
    if n >= 10 {
        decimal_begins(n / 10);
    }
}

/// The name of a counted region holds the number of lines in round brackets.
pub proof fn counted_regions_are_named(n: usize)
    ensures
        named_region("bottom_lines"@ + "("@ + decimal(n as nat) + ")"@) == Region::BottomLines(n),
        named_region("bottom_non_empty_lines"@ + "("@ + decimal(n as nat) + ")"@)
            == Region::BottomFilled(n),
        n > 0 ==> named_region("top_non_empty_lines"@ + "("@ + decimal(n as nat) + ")"@)
            == Region::TopFilled(n),
{
    let d = decimal(n as nat);
    decimal_round_trip(n as nat);
    decimal_begins(n as nat);
    brackets_hold("bottom_lines"@, d);
    brackets_hold("bottom_non_empty_lines"@, d);
    brackets_hold("top_non_empty_lines"@, d);
    names_with_brackets("bottom_lines"@, d);
    names_with_brackets("bottom_non_empty_lines"@, d);
    names_with_brackets("top_non_empty_lines"@, d);
    reveal_strlit("bottom_lines");
    reveal_strlit("bottom_non_empty_lines");
    reveal_strlit("top_non_empty_lines");
    reveal_strlit("(");
    reveal_strlit("0");
    let filled = "bottom_non_empty_lines"@ + "("@ + d + ")"@;
    let top = "top_non_empty_lines"@ + "("@ + d + ")"@;
    assert(!begins(filled, "bottom_lines"@)) by {
        assert(filled[7] == 'n');
        assert("bottom_lines"@[7] == 'l');
        assert(filled.subrange(0, 12)[7] == filled[7]);
    }
    assert(!begins(top, "bottom_lines"@)) by {
        assert(top[0] == 't');
        assert(top.subrange(0, 12)[0] == top[0]);
    }
    assert(!begins(top, "bottom_non_empty_lines"@)) by {
        assert(top[0] == 't');
        if top.len() >= 22 {
            assert(top.subrange(0, 22)[0] == top[0]);
        }
    }
    assert(n > 0 ==> !begins(d, "0"@)) by {
        assert(d.subrange(0, 1)[0] == d[0]);
    }
}

proof fn names_with_brackets(name: Seq<char>, d: Seq<char>)
    requires
        name == "bottom_lines"@ || name == "bottom_non_empty_lines"@ || name
            == "top_non_empty_lines"@,
    ensures
        ({
            let t = name + "("@ + d + ")"@;
            &&& trimmed(t) == t
            &&& t != "osc_title"@ && t != "osc_progress"@ && t != "whole_recent"@
            &&& t != "after_last_prompt_marker"@ && t != "before_current_prompt_marker"@
            &&& t != "whole_recent_without_current_prompt_marker"@
            &&& t != "current_prompt_block_marker"@ && t != "after_current_prompt_block_marker"@
            &&& t != "prompt_box_body"@ && t != "above_prompt_box"@
            &&& t != "last_non_empty_above_prompt_box"@ && t != "after_last_horizontal_rule"@
        }),
{
    let t = name + "("@ + d + ")"@;
    reveal_strlit(")");
    reveal_strlit("(");
    reveal_strlit("bottom_lines");
    reveal_strlit("bottom_non_empty_lines");
    reveal_strlit("top_non_empty_lines");
    assert(t.last() == ')');
    assert(t[0] == name[0]);
    trimmed_of_solid(t);
    reveal_strlit("osc_title");
    reveal_strlit("osc_progress");
    reveal_strlit("whole_recent");
    reveal_strlit("after_last_prompt_marker");
    reveal_strlit("before_current_prompt_marker");
    reveal_strlit("whole_recent_without_current_prompt_marker");
    reveal_strlit("current_prompt_block_marker");
    reveal_strlit("after_current_prompt_block_marker");
    reveal_strlit("prompt_box_body");
    reveal_strlit("above_prompt_box");
    reveal_strlit("last_non_empty_above_prompt_box");
    reveal_strlit("after_last_horizontal_rule");
}

} // verus!
