//! Texts that are handed out: skills, shell hooks, notes for agents, ends of logs.
use crate::text::chars::{
    char_position, char_position_from_is, char_position_from_is_first, chars_of, joined, join_pieces, join_strings, same, string_of,
    texts, views,
};
use crate::text::lines::{feeds, line_list, newline_count, split_lines, without_return};
use vstd::prelude::*;

verus! {

/// A skill that comes with the program.
#[derive(Debug, Clone, Copy)]
pub struct BuiltinSkill {
    pub name: &'static str,
    pub description: &'static str,
    pub markdown: &'static str,
}

/// What a skill is called and what it is for.
#[derive(Debug, Clone, Copy)]
pub struct SkillSummary {
    pub name: &'static str,
    pub description: &'static str,
}

/// How agents drive a session.
pub const VMUX_CONTROL_SKILL: &'static str = "# vmux-control

Use this skill when an agent is running inside a vmux pane and needs to inspect or control the terminal workspace.

## Discover Context

- Run `vmux identify --json` to get the current session, workspace, pane, socket, log, and state paths.
- Use `vmux list` for the full session snapshot.
- Use `vmux sessions` to find detached or persisted sessions after reconnecting to SSH.
- Use `vmux agents` to find agent panes and their status.
- Use `vmux logs --lines 100` to inspect the daemon log when a socket command fails.

## Control Panes

- Create panes with `vmux new-pane --direction right --command \"codex\"`.
- Hierarchy is **Workspace → Tab → Pane**. Create a workspace tab with `vmux tab new --title tests --command \"cargo test\"` and switch with `vmux tab switch tab-2`.
- Split panes with `vmux new-pane --direction right` / `down`.
- Send text with `vmux send --pane PANE --enter \"message\"`.
- Send keys with `vmux send-key --pane PANE C-c enter`.
- Read output with `vmux read-screen --pane PANE --limit-bytes 64000`.
- Search output with `vmux search --pane PANE \"needle\"`.

## Report Agent State (sidebar emoji)

vmux shows workspace sidebar markers from pane agent status:

| Status | Sidebar | When to report |
|--------|---------|----------------|
| busy / running | 🔄 | Task is in progress |
| attention / needs-input | 🙋 | Waiting for user approval/input |
| done | ✅ | Task finished successfully |
| error | ❌ | Task failed |

- Mark work with `vmux set-status busy --message \"working\"` (shows 🔄).
- Request input with `vmux set-status attention --message \"needs review\"` (shows 🙋).
- Finish with `vmux set-status done --message \"complete\"` and `vmux set-progress 100` (shows ✅).
- Fail with `vmux set-status error --message \"failed\"` (shows ❌).
- Send notifications with `vmux notify --message \"needs input\"` (also 🙋).
- Prefer shell helpers: `eval \"$(vmux hooks shell)\"` then `vmux_hook_busy`, `vmux_hook_attention`, `vmux_hook_done`.
- Wire Codex / Grok Stop hooks to `vmux hooks event` with JSON on stdin.
- Attach custom pane context with `vmux metadata set task auth-api --pane PANE`.
- Watch agent activity with `vmux events --limit 50` or `vmux events --follow`.

## Browser And Docs

- Open terminal browser panes with `vmux browser open URL`.
- Inspect pages with `vmux browser snapshot URL`, `vmux browser links URL`, and `vmux browser forms URL`.
- Evaluate static page data with `vmux browser evaluate URL title`, `vmux browser evaluate URL links[1].href`, or `vmux browser evaluate URL text:h1`.
- Inspect terminal-native browser diagnostics with `vmux browser console URL` and `vmux browser network URL`.
- Activate links with `vmux browser click URL --index N`.
- Fill/submit forms with `vmux browser fill URL --index N --field name=value`.
- Open markdown with `vmux markdown open README.md`.

## Multi-Agent Teams

- Create a team with `vmux agent team --agents codex,grok --cwd \"$PWD\"`.
- Hand off work with `vmux agent send --agent PANE --enter \"from: codex; task: ...\"` .
- Keep messages short: sender, target, task, and status.

## Detached Sessions

- The vmux daemon keeps running after SSH disconnects or terminal exits.
- Reattach with `vmux attach --session SESSION` after finding the session with `vmux sessions`.
- Run `vmux smoke` to verify local daemon, pane, tab, event, metadata, and restore behavior.
";

/// What the skill is for.
pub const VMUX_CONTROL_DESCRIPTION: &'static str = "Control vmux sessions, panes, agents, browser surfaces, and notifications from terminal agents.";

/// Functions of a shell that report its state.
pub const BASH_HOOKS: &'static str = "# vmux shell hooks for bash/zsh-compatible shells.
#
# Sidebar emoji (auto from set-status / notify):
#   🔄 busy / running     vmux_hook_busy \"working\"
#   🙋 needs input        vmux_hook_attention \"approve?\"
#   ✅ finished           vmux_hook_done \"complete\"
#   ❌ failed             vmux_hook_error \"failed\"
#
# Usage:
#   eval \"$(vmux hooks shell)\"
#   # or: vmux hooks setup --dir ~/.config/vmux --rc ~/.bashrc
#   vmux_hook_run \"tests\" cargo test
#   vmux_hook_attention \"waiting for approval\"
#
# Coding agents (Codex / Grok / etc.):
#   Inside a vmux pane, VMUX_PANE_ID is set automatically (LMUX_PANE_ID still works).
#   Call these from agent stop/tool hooks, or pipe JSON:
#     echo '{\"event\":\"stop\",\"message\":\"done\"}' | vmux hooks event
#     echo '{\"event\":\"needs-input\",\"message\":\"approve edit\"}' | vmux hooks event
#   OSC fallback (many agents emit this):
#     printf '\\033]777;notify;Agent;waiting for approval\\a'

# Prefer VMUX_*; fall back to legacy LMUX_* from older pane env / scripts.
_vmux_pane_id() {
  if [ -n \"${VMUX_PANE_ID:-}\" ]; then
    printf '%s' \"$VMUX_PANE_ID\"
  elif [ -n \"${LMUX_PANE_ID:-}\" ]; then
    printf '%s' \"$LMUX_PANE_ID\"
  fi
}

_vmux_bin() {
  if command -v vmux >/dev/null 2>&1; then
    printf '%s' vmux
  elif command -v lmux >/dev/null 2>&1; then
    printf '%s' lmux
  else
    printf '%s' vmux
  fi
}

vmux_hook_status() {
  local status=\"${1:-busy}\"
  shift || true
  local message=\"${*:-$status}\"
  local pane_args=()
  local pane
  pane=\"$(_vmux_pane_id)\"
  if [ -n \"$pane\" ]; then
    pane_args=(--pane \"$pane\")
  fi
  \"$(_vmux_bin)\" set-status \"$status\" \"${pane_args[@]}\" --message \"$message\" >/dev/null 2>&1 || true
}

vmux_hook_busy() {
  vmux_hook_status busy \"${*:-working}\"
}

vmux_hook_done() {
  vmux_hook_status done \"${*:-complete}\"
  vmux_hook_progress 100
}

vmux_hook_error() {
  vmux_hook_status error \"${*:-failed}\"
}

vmux_hook_progress() {
  local value=\"${1:-0}\"
  local pane_args=()
  local pane
  pane=\"$(_vmux_pane_id)\"
  if [ -n \"$pane\" ]; then
    pane_args=(--pane \"$pane\")
  fi
  \"$(_vmux_bin)\" set-progress \"$value\" \"${pane_args[@]}\" >/dev/null 2>&1 || true
}

vmux_hook_notify() {
  local message=\"${*:-needs attention}\"
  local pane_args=()
  local pane
  pane=\"$(_vmux_pane_id)\"
  if [ -n \"$pane\" ]; then
    pane_args=(--pane \"$pane\")
  fi
  \"$(_vmux_bin)\" notify \"${pane_args[@]}\" --status attention --message \"$message\" >/dev/null 2>&1 || true
}

vmux_hook_attention() {
  vmux_hook_status attention \"${*:-needs input}\"
  vmux_hook_notify \"${*:-needs input}\"
}

vmux_hook_run() {
  local label=\"${1:-command}\"
  shift
  vmux_hook_busy \"$label\"
  \"$@\"
  local code=$?
  if [ \"$code\" -eq 0 ]; then
    vmux_hook_done \"$label done\"
  else
    vmux_hook_error \"$label failed ($code)\"
  fi
  return \"$code\"
}

# Pipe agent hook JSON (Codex hooks, etc.) into vmux.
# Example Stop hook command:
#   cat | vmux hooks event --pane \"${VMUX_PANE_ID:-${LMUX_PANE_ID:-}}\"
vmux_hook_event_stdin() {
  local pane session_args=()
  pane=\"$(_vmux_pane_id)\"
  if [ -n \"$pane\" ]; then
    session_args+=(--pane \"$pane\")
  fi
  if [ -n \"${VMUX_SESSION:-${LMUX_SESSION:-}}\" ]; then
    session_args+=(--session \"${VMUX_SESSION:-$LMUX_SESSION}\")
  fi
  \"$(_vmux_bin)\" hooks event \"${session_args[@]}\" \"$@\" >/dev/null 2>&1 || true
}

# Legacy lmux_* aliases so older scripts keep working after the rename.
lmux_hook_status() { vmux_hook_status \"$@\"; }
lmux_hook_busy() { vmux_hook_busy \"$@\"; }
lmux_hook_done() { vmux_hook_done \"$@\"; }
lmux_hook_error() { vmux_hook_error \"$@\"; }
lmux_hook_progress() { vmux_hook_progress \"$@\"; }
lmux_hook_notify() { vmux_hook_notify \"$@\"; }
lmux_hook_attention() { vmux_hook_attention \"$@\"; }
lmux_hook_run() { vmux_hook_run \"$@\"; }
lmux_hook_event_stdin() { vmux_hook_event_stdin \"$@\"; }
";

/// A skill is the one with which agents drive a session.
pub open spec fn is_control_skill(skill: BuiltinSkill) -> bool {
    skill.name@ == "vmux-control"@ && skill.description@ == VMUX_CONTROL_DESCRIPTION@
        && skill.markdown@ == VMUX_CONTROL_SKILL@
}

/// The skills that come with the program.
pub fn builtin_skills() -> (r: Vec<BuiltinSkill>)
    ensures
        r@.len() == 1,
        is_control_skill(r@[0]),
{
    let mut list: Vec<BuiltinSkill> = Vec::new();
    list.push(
        BuiltinSkill {
            name: "vmux-control",
            description: VMUX_CONTROL_DESCRIPTION,
            markdown: VMUX_CONTROL_SKILL,
        },
    );
    list
}

/// What the skills are called and what they are for.
pub fn builtin_skill_summaries() -> (r: Vec<SkillSummary>)
    ensures
        r@.len() == 1,
        r@[0].name@ == "vmux-control"@,
        r@[0].description@ == VMUX_CONTROL_DESCRIPTION@,
{
    let skills = builtin_skills();
    let mut list: Vec<SkillSummary> = Vec::new();
    list.push(SkillSummary { name: skills[0].name, description: skills[0].description });
    list
}

/// A name that no skill has.
#[derive(Debug)]
pub struct UnknownSkill {
    pub name: String,
}

/// The skill with a name.
pub fn builtin_skill(name: &str) -> (r: Result<BuiltinSkill, UnknownSkill>)
    ensures
        match r {
            Ok(skill) => name@ == "vmux-control"@ && is_control_skill(skill),
            Err(e) => name@ != "vmux-control"@ && e.name@ == name@,
        },
{
    let skills = builtin_skills();
    if same(skills[0].name, name) {
        Ok(skills[0])
    } else {
        Err(UnknownSkill { name: name.to_string() })
    }
}

/// A shell that has hooks.
#[derive(Debug, Clone, Copy, PartialEq, Eq, Structural)]
pub enum HookShell {
    Bash,
}

/// The name of the file with a shell's hooks.
pub fn hooks_filename(shell: HookShell) -> (r: &'static str)
    ensures
        r@ == "hooks.sh"@,
{
    match shell {
        HookShell::Bash => "hooks.sh",
    }
}

/// A shell's hooks.
pub fn shell_hooks(shell: HookShell) -> (r: &'static str)
    ensures
        r@ == BASH_HOOKS@,
{
    match shell {
        HookShell::Bash => BASH_HOOKS,
    }
}

/// The list of a team's agents, a line for each.
pub open spec fn roster(agents: Seq<Seq<char>>) -> Seq<char> {
    joined(Seq::new(agents.len(), |i: int| "- `"@ + agents[i] + "`"@), "\n"@)
}

/// What stands above the list of agents.
pub const TEAM_HEAD: &'static str = "# vmux Agent Team\n\nAgents in this workspace:\n\n";

/// What stands below the list of agents.
pub const TEAM_TAIL: &'static str = "\n\nUse `vmux identify --json` to discover the current pane and socket context.\nUse `vmux agent send --agent PANE --enter \"message\"` to hand work to another pane.\nUse `vmux agent notify --agent PANE --status attention --message \"needs input\"` when blocked.\nPrefer short messages with the sender, target, task, and current status.\n";

/// The note for a team of agents.
pub fn agent_team_markdown(agents: &Vec<String>) -> (r: String)
    ensures
        r@ == TEAM_HEAD@ + roster(texts(agents@)) + TEAM_TAIL@,
{
    let mut lines: Vec<String> = Vec::new();
    let mut i: usize = 0;
    while i < agents.len()
        invariant
            i <= agents.len(),
            lines@.len() == i,
            forall|j: int|
                0 <= j < i ==> (#[trigger] lines@[j])@ == "- `"@ + agents@[j]@ + "`"@,
        decreases agents.len() - i,
    {
        let mut line = "- `".to_string();
        line.append(agents[i].as_str());
        line.append("`");
        lines.push(line);
        i += 1;
    }
    let ghost all = texts(agents@);
    assert(texts(lines@) =~= Seq::new(all.len(), |i: int| "- `"@ + all[i] + "`"@));
    let mut out = TEAM_HEAD.to_string();
    out.append(join_strings(lines.as_slice(), "\n").as_str());
    out.append(TEAM_TAIL);
    out
}

/// How many line feeds there are.
pub fn bytecount_newlines(bytes: &[u8]) -> (r: usize)
    ensures
        r == newline_count(bytes@),
        r <= bytes@.len(),
{
    let mut n: usize = 0;
    let mut i: usize = 0;
    assert(bytes@.take(0) =~= Seq::empty());
    while i < bytes.len()
        invariant
            i <= bytes.len(),
            n <= i,
            n == newline_count(bytes@.take(i as int)),
        decreases bytes.len() - i,
    {
        assert(bytes@.take(i + 1).drop_last() =~= bytes@.take(i as int));
        if bytes[i] == 10 {
            n += 1;
        }
        i += 1;
    }
    assert(bytes@.take(i as int) =~= bytes@);
    n
}

/// How much of a log is read at a time.
pub const TAIL_CHUNK: u64 = 8192;

/// Where the next part of a log begins, when it is read from its end: none where enough line
/// feeds have been seen for the lines that are wanted, or all of it has been read.
pub fn next_tail_start(pos: u64, found: usize, lines: usize) -> (r: Option<u64>)
    ensures
        r == if pos > 0 && found <= lines {
            Some(
                if pos > TAIL_CHUNK {
                    (pos - TAIL_CHUNK) as u64
                } else {
                    0
                },
            )
        } else {
            None::<u64>
        },
{
    if pos > 0 && found <= lines {
        Some(
            if pos > TAIL_CHUNK {
                pos - TAIL_CHUNK
            } else {
                0
            },
        )
    } else {
        None
    }
}

/// The last `n` of a list, or all of it.
pub open spec fn last_of<T>(list: Seq<T>, n: int) -> Seq<T> {
    if list.len() <= n {
        list
    } else {
        list.skip(list.len() - n)
    }
}

/// The last lines of a text. A line feed ends them where one ends the text.
pub open spec fn tail_of(text: Seq<char>, lines: int) -> Seq<char> {
    if lines == 0 {
        Seq::empty()
    } else {
        let tail = joined(last_of(line_list(text), lines), "\n"@);
        if tail.len() > 0 && text.last() == '\n' {
            tail.push('\n')
        } else {
            tail
        }
    }
}

/// The last lines of a text.
pub fn tail_text_lines(text: &str, lines: usize) -> (r: String)
    ensures
        r@ == tail_of(text@, lines as int),
{
    if lines == 0 {
        return String::new();
    }
    let chars = chars_of(text);
    let items = split_lines(chars.as_slice());
    let start = if items.len() > lines {
        items.len() - lines
    } else {
        0
    };
    let part = vstd::slice::slice_subrange(items.as_slice(), start, items.len());
    assert(views(part@) =~= last_of(line_list(text@), lines as int));
    let mut out = string_of(join_pieces(part, "\n").as_slice());
    let empty = out.as_str().unicode_len() == 0;
    if !empty && chars.len() > 0 && chars[chars.len() - 1] == '\n' {
        out.push('\n');
    }
    out
}

/// Up to and with its first line feed a text has one.
proof fn feeds_behind_first(text: Seq<char>, p: int)
    requires
        0 <= p < text.len(),
        text[p] == '\n',
        forall|i: int| 0 <= i < p ==> text[i] != '\n',
    ensures
        feeds(text) == 1 + feeds(text.skip(p + 1)),
    decreases p,
{
    if p == 0 {
        assert(text.drop_first() =~= text.skip(1));
    } else {
        let rest = text.drop_first();
        assert(rest.skip(p) =~= text.skip(p + 1));
        feeds_behind_first(rest, p - 1);
    }
}

/// A text without line feeds has none.
proof fn no_feeds(text: Seq<char>)
    requires
        forall|i: int| 0 <= i < text.len() ==> text[i] != '\n',
    ensures
        feeds(text) == 0,
    decreases text.len(),
{
    if text.len() > 0 {
        no_feeds(text.drop_first());
    }
}

/// A text has at least as many lines as line feeds.
pub proof fn a_line_for_each_feed(text: Seq<char>)
    ensures
        line_list(text).len() >= feeds(text),
    decreases text.len(),
{
    char_position_from_is_first(text, '\n', 0);
    match char_position(text, '\n') {
        Some(p) => {
            feeds_behind_first(text, p);
            a_line_for_each_feed(text.skip(p + 1));
        },
        None => no_feeds(text),
    }
}

/// The lines of two texts, the first of which ends with a line feed, are those of the first
/// and then those of the second.
pub proof fn lines_add_up(u: Seq<char>, v: Seq<char>)
    requires
        u.len() > 0,
        u.last() == '\n',
    ensures
        line_list(u + v) == line_list(u) + line_list(v),
    decreases u.len(),
{
    char_position_from_is_first(u, '\n', 0);
    assert(u[u.len() - 1] == '\n');
    let p = char_position(u, '\n')->0;
    assert forall|i: int| 0 <= i < p implies (u + v)[i] != '\n' by {
        assert((u + v)[i] == u[i]);
    }
    char_position_from_is(u + v, '\n', 0, p);
    assert((u + v).take(p) =~= u.take(p));
    assert((u + v).skip(p + 1) =~= u.skip(p + 1) + v);
    let line = seq![without_return(u.take(p))];
    if p + 1 == u.len() {
        assert(u.skip(p + 1) =~= Seq::empty());
        assert(u.skip(p + 1) + v =~= v);
        assert(line_list(u.skip(p + 1)).len() == 0);
        assert(line_list(u) =~= line);
    } else {
        lines_add_up(u.skip(p + 1), v);
        assert(line + (line_list(u.skip(p + 1)) + line_list(v)) =~= (line + line_list(
            u.skip(p + 1),
        )) + line_list(v));
    }
}

/// The end of a log is enough for its last lines, where it holds more line feeds than lines
/// are wanted: what stands before it makes no difference.
pub proof fn end_is_enough(before: Seq<char>, end: Seq<char>, lines: int)
    requires
        0 <= lines < feeds(end),
    ensures
        tail_of(before + end, lines) == tail_of(end, lines),
{
    char_position_from_is_first(end, '\n', 0);
    if char_position(end, '\n') is None {
        no_feeds(end);
    }
    let p = char_position(end, '\n')->0;
    feeds_behind_first(end, p);
    let first = end.take(p + 1);
    let rest = end.skip(p + 1);
    assert(end =~= first + rest);
    assert(before + end =~= (before + first) + rest);
    assert(first.last() == '\n' && (before + first).last() == '\n');
    lines_add_up(first, rest);
    lines_add_up(before + first, rest);
    a_line_for_each_feed(rest);
    assert(last_of(line_list(end), lines) =~= last_of(line_list(rest), lines));
    assert(last_of(line_list(before + end), lines) =~= last_of(line_list(rest), lines));
    assert((before + end).last() == end.last());
}

} // verus!
