//! Which agent runs in a pane, and what its rules say.
use crate::detect::agents::{
    after_slashes, agent_in_pane, agent_label, agent_named, base_name, command_agent,
    first_argument, is_given, pane_agent, process_agent, stands_alone, tree_agent, AgentNames,
    ManifestAgent, ProcessFacts,
};
use crate::detect::manifest::{
    deciding_rule, deciding_rule_is_best, gate_holds, is_fallback, matches_a_line, pattern_matches,
    rule_matches, rule_text, says, small_text, DetectedState, DetectionInput, ManifestDetection,
    ManifestGate, ManifestRule,
};
use crate::laws::commands::last_place_is;
use crate::text::chars::{
    begins, char_position, char_position_from_is, char_position_from_is_first, has_text, is_alnum,
    lowered, opt_text, trimmed, words,
};
use crate::text::lines::line_list;
use vstd::prelude::*;

verus! {

/// The agents are known by these names, whatever their case and the white space around them.
pub proof fn agents_are_known_by_name(names: AgentNames, text: Seq<char>)
    requires
        !is_given(names, lowered(trimmed(text))),
    ensures
        ({
            let l = lowered(trimmed(text));
            let a = agent_named(names, text);
            &&& l == "codex"@ ==> a == Some(ManifestAgent::Codex)
            &&& l == "grok"@ || l == "grok-build"@ ==> a == Some(ManifestAgent::Grok)
            &&& l == "cursor"@ || l == "cursor-agent"@ ==> a == Some(ManifestAgent::Cursor)
            &&& l == "gemini"@ ==> a == Some(ManifestAgent::Gemini)
            &&& l == "opencode"@ || l == "open-code"@ ==> a == Some(ManifestAgent::OpenCode)
            &&& l == "amp"@ || l == "amp-local"@ ==> a == Some(ManifestAgent::Amp)
            &&& l != "codex"@ && l != "grok"@ && l != "grok-build"@ && l != "cursor"@ && l
                != "cursor-agent"@ && l != "gemini"@ && l != "opencode"@ && l != "open-code"@ && l
                != "amp"@ && l != "amp-local"@ ==> a is None
        }),
        agent_label(names, ManifestAgent::Codex) == "codex"@,
        agent_label(names, ManifestAgent::Grok) == "grok"@,
        agent_label(names, ManifestAgent::Cursor) == "cursor"@,
        agent_label(names, ManifestAgent::Gemini) == "gemini"@,
        agent_label(names, ManifestAgent::OpenCode) == "opencode"@,
        agent_label(names, ManifestAgent::Amp) == "amp"@,
{
    reveal_strlit("codex");
    reveal_strlit("grok");
    reveal_strlit("grok-build");
    reveal_strlit("cursor");
    reveal_strlit("cursor-agent");
    reveal_strlit("gemini");
    reveal_strlit("opencode");
    reveal_strlit("open-code");
    reveal_strlit("amp");
    reveal_strlit("amp-local");
    assert("codex"@.len() == 5);
    assert("grok"@.len() == 4);
    assert("grok-build"@.len() == 10);
    assert("cursor"@.len() == 6);
    assert("cursor-agent"@.len() == 12);
    assert("gemini"@.len() == 6);
    assert("opencode"@.len() == 8);
    assert("open-code"@.len() == 9);
    assert("amp"@.len() == 3);
    assert("amp-local"@.len() == 9);
    assert("cursor"@[0] != "gemini"@[0]);
    assert("open-code"@[0] != "amp-local"@[0]);
}

/// A program goes by its name: without its directory, and without what follows its first dot.
pub proof fn programs_go_by_their_names(dir: Seq<char>, name: Seq<char>, ending: Seq<char>)
    requires
        forall|i: int|
            0 <= i < name.len() ==> #[trigger] name[i] != '/' && name[i] != '\\' && name[i] != '.',
        forall|i: int| 0 <= i < ending.len() ==> #[trigger] ending[i] != '/' && ending[i] != '\\',
    ensures
        base_name(name) == name,
        base_name(dir + "/"@ + name) == name,
        base_name(dir + "\\"@ + name) == name,
        base_name(dir + "/"@ + name + "."@ + ending) == name,
{
    reveal_strlit("/");
    reveal_strlit("\\");
    reveal_strlit(".");
    assert("/"@ =~= seq!['/']);
    assert("\\"@ =~= seq!['\\']);
    assert("."@ =~= seq!['.']);
    last_place_is(name, '/', name.len() as int, -1);
    last_place_is(name, '\\', name.len() as int, -1);
    assert(name.skip(0) =~= name);
    no_dot(name);
    behind_a_separator(dir, '/', name);
    behind_a_separator(dir, '\\', name);
    let full = name + "."@ + ending;
    assert forall|i: int| 0 <= i < full.len() implies #[trigger] full[i] != '/' && full[i]
        != '\\' by {
        if i < name.len() {
            assert(full[i] == name[i]);
        } else if i > name.len() {
            assert(full[i] == ending[i - name.len() - 1]);
        }
    }
    behind_a_separator(dir, '/', full);
    assert(dir + "/"@ + name + "."@ + ending =~= dir + seq!['/'] + full);
    assert forall|i: int| 0 <= i < name.len() implies full[i] != '.' by {
        assert(full[i] == name[i]);
    }
    assert(full[name.len() as int] == '.');
    char_position_from_is(full, '.', 0, name.len() as int);
    assert(full.take(name.len() as int) =~= name);
}

proof fn no_dot(name: Seq<char>)
    requires
        forall|i: int| 0 <= i < name.len() ==> #[trigger] name[i] != '.',
    ensures
        char_position(name, '.') is None,
{
    char_position_from_is_first(name, '.', 0);
    if char_position(name, '.') is Some {
        assert(name[char_position(name, '.')->0] == '.');
    }
}

proof fn behind_a_separator(dir: Seq<char>, sep: char, name: Seq<char>)
    requires
        sep == '/' || sep == '\\',
        forall|i: int| 0 <= i < name.len() ==> #[trigger] name[i] != '/' && name[i] != '\\',
    ensures
        after_slashes(dir + seq![sep] + name) == name,
{
    let s = dir + seq![sep] + name;
    let n = dir.len() as int;
    let other = if sep == '/' { '\\' } else { '/' };
    assert(s[n] == sep);
    assert forall|i: int| n < i < s.len() implies #[trigger] s[i] != '/' && s[i] != '\\' by {
        assert(s[i] == name[i - n - 1]);
    }
    last_place_is(s, sep, s.len() as int, n);
    last_exists(s, other, s.len() as int);
    let p = last_of(s, other);
    last_place_is(s, other, s.len() as int, p);
    assert(p < n) by {
        if p >= n {
            assert(s[p] == other);
        }
    }
    assert(s.skip(n + 1) =~= name);
}

spec fn last_of(s: Seq<char>, c: char) -> int {
    if exists|i: int| #[trigger] is_last(s, c, i) {
        choose|i: int| #[trigger] is_last(s, c, i)
    } else {
        -1
    }
}

spec fn is_last(s: Seq<char>, c: char, i: int) -> bool {
    0 <= i < s.len() && s[i] == c && forall|k: int| i < k < s.len() ==> #[trigger] s[k] != c
}

proof fn last_exists(s: Seq<char>, c: char, n: int)
    requires
        0 <= n <= s.len(),
        forall|k: int| n <= k < s.len() ==> #[trigger] s[k] != c,
    ensures
        last_of(s, c) < 0 ==> (forall|k: int| 0 <= k < s.len() ==> #[trigger] s[k] != c),
        last_of(s, c) >= 0 ==> is_last(s, c, last_of(s, c)),
    decreases n,
{
    if n > 0 {
        if s[n - 1] == c {
            assert(is_last(s, c, n - 1));
        } else {
            last_exists(s, c, n - 1);
        }
    } else {
        if exists|i: int| #[trigger] is_last(s, c, i) {
            let i = choose|i: int| #[trigger] is_last(s, c, i);
        }
    }
}

/// The agent of a command is the one that its program is named after; a hint that names one comes
/// first.
pub proof fn programs_name_agents(
    names: AgentNames,
    command: Seq<char>,
    hint: Option<Seq<char>>,
)
    ensures
        words(command).len() == 0 ==> command_agent(names, command) is None,
        words(command).len() > 0 && agent_named(names, base_name(words(command)[0])) is Some
            ==> command_agent(names, command) == agent_named(names, base_name(words(command)[0])),
        hint is Some && agent_named(names, hint->0) is Some ==> pane_agent(names, command, hint)
            == agent_named(names, hint->0),
        hint is None || agent_named(names, hint->0) is None ==> pane_agent(names, command, hint)
            == command_agent(names, command),
{
}

/// A script that an interpreter runs is an agent by its own name; options before it do not count.
pub proof fn scripts_name_agents(
    names: AgentNames,
    command: Seq<char>,
    k: int,
)
    requires
        ({
            let list = words(command);
            let program = base_name(list[0]);
            &&& 0 < k < list.len()
            &&& program == "node"@ || program == "nodejs"@ || program == "bun"@ || program
                == "deno"@ || program == "python"@ || program == "python3"@
            &&& agent_named(names, program) is None
            &&& forall|j: int| 0 < j < k ==> begins(#[trigger] list[j], "-"@)
            &&& !begins(list[k], "-"@)
            &&& agent_named(names, base_name(list[k])) is Some
        }),
    ensures
        command_agent(names, command) == agent_named(names, base_name(words(command)[k])),
{
    let list = words(command);
    let rest = list.drop_first();
    assert forall|j: int| 0 <= j < k - 1 implies begins(#[trigger] rest[j], "-"@) by {
        assert(rest[j] == list[j + 1]);
    }
    assert(rest[k - 1] == list[k]);
    first_plain_word(rest, k - 1);
}

proof fn first_plain_word(list: Seq<Seq<char>>, k: int)
    requires
        0 <= k < list.len(),
        forall|j: int| 0 <= j < k ==> begins(#[trigger] list[j], "-"@),
        !begins(list[k], "-"@),
    ensures
        first_argument(list) == Some(list[k]),
    decreases k,
{
    if k > 0 {
        let rest = list.drop_first();
        assert(begins(list[0], "-"@));
        assert forall|j: int| 0 <= j < k - 1 implies begins(#[trigger] rest[j], "-"@) by {
            assert(rest[j] == list[j + 1]);
        }
        assert(rest[k - 1] == list[k]);
        first_plain_word(rest, k - 1);
    }
}

/// The agent in a pane is that of its command, or else that of the first process below it that is
/// one.
pub proof fn processes_name_agents(
    names: AgentNames,
    command: Seq<char>,
    hint: Option<Seq<char>>,
    list: Seq<ProcessFacts>,
    k: int,
)
    requires
        0 <= k < list.len(),
        process_agent(names, list[k], hint) is Some,
        forall|j: int| 0 <= j < k ==> process_agent(names, #[trigger] list[j], hint) is None,
    ensures
        tree_agent(names, list, hint) == process_agent(names, list[k], hint),
        pane_agent(names, command, hint) is Some ==> agent_in_pane(names, command, hint, list)
            == pane_agent(names, command, hint),
        pane_agent(names, command, hint) is None ==> agent_in_pane(names, command, hint, list)
            == process_agent(names, list[k], hint),
        agent_named(names, trimmed(list[k].comm@)) is Some ==> process_agent(names, list[k], hint)
            == agent_named(names, trimmed(list[k].comm@)),
    decreases k,
{
    first_process(names, list, hint, k);
}

proof fn first_process(
    names: AgentNames,
    list: Seq<ProcessFacts>,
    hint: Option<Seq<char>>,
    k: int,
)
    requires
        0 <= k < list.len(),
        process_agent(names, list[k], hint) is Some,
        forall|j: int| 0 <= j < k ==> process_agent(names, #[trigger] list[j], hint) is None,
    ensures
        tree_agent(names, list, hint) == process_agent(names, list[k], hint),
    decreases k,
{
    if k > 0 {
        let rest = list.drop_first();
        assert(process_agent(names, list[0], hint) is None);
        assert(rest[k - 1] == list[k]);
        assert forall|j: int| 0 <= j < k - 1 implies process_agent(
            names,
            #[trigger] rest[j],
            hint,
        ) is None by {
            assert(rest[j] == list[j + 1]);
        }
        first_process(names, rest, hint, k - 1);
    }
}

/// A name stands alone in a text where no letter and no digit touches it.
pub proof fn names_stand_alone(before: Seq<char>, name: Seq<char>, after: Seq<char>)
    requires
        name.len() > 0,
    ensures
        (before.len() == 0 || !is_alnum(before.last())) && (after.len() == 0 || !is_alnum(after[0]))
            ==> stands_alone(before + name + after, name, before.len() as int),
        before.len() > 0 && is_alnum(before.last()) ==> !stands_alone(
            before + name + after,
            name,
            before.len() as int,
        ),
        after.len() > 0 && is_alnum(after[0]) ==> !stands_alone(
            before + name + after,
            name,
            before.len() as int,
        ),
{
    let s = before + name + after;
    let n = before.len() as int;
    assert(s.subrange(n, n + name.len()) =~= name);
    if before.len() > 0 {
        assert(s[n - 1] == before.last());
    }
    if after.len() > 0 {
        assert(s[n + name.len()] == after[0]);
    }
}

/// Where a rule decides, the state is the rule's, and what the screen shows is said only of the
/// state that it goes with; the rule is named. Without one the agent is taken to be idle.
pub proof fn rules_say(rule: ManifestRule, d: ManifestDetection)
    ensures
        says(rule, d) ==> {
            &&& rule.state matches Some(s) ==> d.state == s
            &&& rule.state is None ==> d.state == DetectedState::Unknown
            &&& d.skip_state_update == rule.skip_state_update
            &&& d.visible_blocker ==> d.state == DetectedState::Blocked && rule.visible_blocker
            &&& d.visible_working ==> d.state == DetectedState::Working && rule.visible_working
            &&& d.visible_idle ==> d.state == DetectedState::Idle && rule.visible_idle
            &&& rule.state == Some(DetectedState::Blocked) && rule.visible_blocker
                ==> d.visible_blocker
            &&& rule.state == Some(DetectedState::Working) && rule.visible_working
                ==> d.visible_working
            &&& rule.state == Some(DetectedState::Idle) && rule.visible_idle ==> d.visible_idle
            &&& opt_text(d.matched_rule) == Some(rule.id@)
            &&& d.fallback_reason is None
        },
        is_fallback(d) ==> {
            &&& d.state == DetectedState::Idle
            &&& d.matched_rule is None
            &&& !d.skip_state_update
            &&& !d.visible_blocker
            &&& !d.visible_working
        },
{
}

/// A condition holds where all of its texts and patterns are there, all of its parts hold, one of
/// its alternatives does where it has any, and none of what it rules out does.
pub proof fn conditions_hold(g: ManifestGate, text: Seq<char>, i: int)
    ensures
        g.all@.len() == 0 && g.any@.len() == 0 && g.not_gate@.len() == 0 && g.contains@.len() == 0
            && g.regex@.len() == 0 && g.line_regex@.len() == 0 ==> gate_holds(g, text),
        0 <= i < g.contains@.len() && !has_text(small_text(text), small_text(g.contains@[i]@))
            ==> !gate_holds(g, text),
        0 <= i < g.regex@.len() && !pattern_matches(g.regex@[i]@, text) ==> !gate_holds(g, text),
        0 <= i < g.line_regex@.len() && (forall|j: int|
            0 <= j < line_list(text).len() ==> !pattern_matches(
                g.line_regex@[i]@,
                #[trigger] line_list(text)[j],
            )) ==> !gate_holds(g, text),
        0 <= i < g.all@.len() && !gate_holds(g.all@[i], text) ==> !gate_holds(g, text),
        0 <= i < g.not_gate@.len() && gate_holds(g.not_gate@[i], text) ==> !gate_holds(g, text),
        g.any@.len() > 0 && (forall|j: int|
            0 <= j < g.any@.len() ==> !gate_holds(#[trigger] g.any@[j], text)) ==> !gate_holds(
            g,
            text,
        ),
        g.all@.len() == 0 && g.not_gate@.len() == 0 && g.contains@.len() == 0 && g.regex@.len() == 0
            && g.line_regex@.len() == 0 && 0 <= i < g.any@.len() && gate_holds(g.any@[i], text)
            ==> gate_holds(g, text),
        g.all@.len() == 0 && g.any@.len() == 0 && g.not_gate@.len() == 0 && g.regex@.len() == 0
            && g.line_regex@.len() == 0 && (forall|j: int|
            0 <= j < g.contains@.len() ==> has_text(
                small_text(text),
                small_text((#[trigger] g.contains@[j])@),
            )) ==> gate_holds(g, text),
{
    if 0 <= i < g.line_regex@.len() && gate_holds(g, text) {
        let pattern = g.line_regex@[i]@;
        assert(matches_a_line(pattern, text));
        let j = choose|j: int|
            0 <= j < line_list(text).len() && pattern_matches(
                pattern,
                #[trigger] line_list(text)[j],
            );
        assert(pattern_matches(pattern, line_list(text)[j]));
    }
}

/// A rule looks at the part of the screen that it names, and of the rules that match the one of the
/// highest priority decides, the first of them.
pub proof fn the_highest_rule_decides(rules: Seq<ManifestRule>, input: DetectionInput, i: int)
    requires
        0 <= i < rules.len(),
        gate_holds(rules[i].gate, rule_text(input, rules[i].region@)->0),
        forall|k: int|
            0 <= k < rules.len() && k != i && gate_holds(
                (#[trigger] rules[k]).gate,
                rule_text(input, rules[k].region@)->0,
            ) ==> rules[k].priority < rules[i].priority || (k > i && rules[k].priority
                == rules[i].priority),
    ensures
        deciding_rule(rules, input) == Some(i),
{
    deciding_rule_is_best(rules, input);
    assert(rule_matches(rules[i], input));
    match deciding_rule(rules, input) {
        Some(k) => {
            assert(rule_matches(rules[k], input));
        },
        None => {},
    }
}

} // verus!
