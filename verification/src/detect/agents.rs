//! Which agent runs in a pane, and what its screen makes of the status of the pane.
use crate::daemon::stream::{decode_lossy, utf8_lossy};
use crate::detect::manifest::{
    can_read_texts, deciding_rule, detect_with_osc, is_fallback, says, texts_readable,
    DetectedState, DetectionInput, LoadedManifest, ManifestDetection,
};
use crate::model::{AgentStatus, Pane};
use crate::text::chars::{
    alnum, at, begins, char_position, chars_of, contains, find_char, has_text, is_alnum, is_text,
    last_char_position, lower, lowered, opt_str, opt_text, rfind_char, split_words, stands_at,
    starts_with, trim, trimmed, views, words,
};
use vstd::prelude::*;
use vstd::slice::slice_subrange;

verus! {

/// An agent whose screen can be read by rules.
#[derive(Debug, Clone, Copy, PartialEq, Eq, Structural)]
pub enum ManifestAgent {
    Claude,
    Codex,
    Grok,
    Cursor,
    Gemini,
    OpenCode,
    Amp,
}

/// The names of the agent that is looked for first, which the settings give: in small letters,
/// without spaces round them. Without a label it is not found.
#[derive(Debug)]
pub struct AgentNames {
    pub label: String,
    /// What else it is called.
    pub aliases: Vec<String>,
}

/// The name is one of those that the settings give.
pub open spec fn is_given(names: AgentNames, name: Seq<char>) -> bool {
    name.len() > 0 && (name == names.label@ || exists|i: int|
        0 <= i < names.aliases@.len() && (#[trigger] names.aliases@[i])@ == name)
}

/// The name of an agent.
pub open spec fn agent_label(names: AgentNames, agent: ManifestAgent) -> Seq<char> {
    match agent {
        ManifestAgent::Claude => names.label@,
        ManifestAgent::Codex => "codex"@,
        ManifestAgent::Grok => "grok"@,
        ManifestAgent::Cursor => "cursor"@,
        ManifestAgent::Gemini => "gemini"@,
        ManifestAgent::OpenCode => "opencode"@,
        ManifestAgent::Amp => "amp"@,
    }
}

/// The agents, in the order in which they are looked for.
pub open spec fn agent_list() -> Seq<ManifestAgent> {
    seq![
        ManifestAgent::Claude,
        ManifestAgent::Codex,
        ManifestAgent::Grok,
        ManifestAgent::Cursor,
        ManifestAgent::Gemini,
        ManifestAgent::OpenCode,
        ManifestAgent::Amp,
    ]
}

/// The agent with a name in small letters, other than the one whose names are given.
pub open spec fn known_agent(l: Seq<char>) -> Option<ManifestAgent> {
    if l == "codex"@ {
        Some(ManifestAgent::Codex)
    } else if l == "grok"@ || l == "grok-build"@ {
        Some(ManifestAgent::Grok)
    } else if l == "cursor"@ || l == "cursor-agent"@ {
        Some(ManifestAgent::Cursor)
    } else if l == "gemini"@ {
        Some(ManifestAgent::Gemini)
    } else if l == "opencode"@ || l == "open-code"@ {
        Some(ManifestAgent::OpenCode)
    } else if l == "amp"@ || l == "amp-local"@ {
        Some(ManifestAgent::Amp)
    } else {
        None
    }
}

/// The agent with the name, whatever its case.
pub open spec fn agent_named(names: AgentNames, name: Seq<char>) -> Option<ManifestAgent> {
    let l = lowered(trimmed(name));
    if is_given(names, l) {
        Some(ManifestAgent::Claude)
    } else {
        known_agent(l)
    }
}

/// The given label is one that a name can be compared with, and no given name is that of
/// another agent.
pub open spec fn are_fit(names: AgentNames) -> bool {
    &&& names.label@.len() > 0
    &&& lowered(trimmed(names.label@)) == names.label@
    &&& forall|l: Seq<char>| #[trigger] known_agent(l) is Some ==> !is_given(names, l)
}

/// The name stands in the text as a word of its own: neither a letter nor a digit comes right
/// before it or right after it.
pub open spec fn stands_alone(text: Seq<char>, name: Seq<char>, i: int) -> bool {
    &&& stands_at(text, name, i)
    &&& i == 0 || !is_alnum(text[i - 1])
    &&& i + name.len() == text.len() || !is_alnum(text[i + name.len()])
}

/// The text holds the name of the agent, which has one, as a word of its own.
pub open spec fn holds_label(names: AgentNames, text: Seq<char>, agent: ManifestAgent) -> bool {
    agent_label(names, agent).len() > 0 && exists|i: int| #[trigger]
        stands_alone(text, agent_label(names, agent), i)
}

impl ManifestAgent {
    /// The name of the agent.
    pub fn label(self, names: &AgentNames) -> (r: &str)
        ensures
            r@ == agent_label(*names, self),
    {
        match self {
            ManifestAgent::Claude => names.label.as_str(),
            ManifestAgent::Codex => "codex",
            ManifestAgent::Grok => "grok",
            ManifestAgent::Cursor => "cursor",
            ManifestAgent::Gemini => "gemini",
            ManifestAgent::OpenCode => "opencode",
            ManifestAgent::Amp => "amp",
        }
    }

    /// The agents, in the order in which they are looked for.
    pub fn all() -> (r: Vec<ManifestAgent>)
        ensures
            r@ == agent_list(),
    {
        let mut all: Vec<ManifestAgent> = Vec::new();
        all.push(ManifestAgent::Claude);
        all.push(ManifestAgent::Codex);
        all.push(ManifestAgent::Grok);
        all.push(ManifestAgent::Cursor);
        all.push(ManifestAgent::Gemini);
        all.push(ManifestAgent::OpenCode);
        all.push(ManifestAgent::Amp);
        assert(all@ =~= agent_list());
        all
    }

    /// The agent with the name, whatever its case.
    pub fn parse(names: &AgentNames, name: &str) -> (r: Option<ManifestAgent>)
        ensures
            r == agent_named(*names, name@),
    {
        let chars = chars_of(name);
        parse_chars(names, chars.as_slice())
    }
}

fn find_given(names: &AgentNames, name: &[char]) -> (r: bool)
    ensures
        r == is_given(*names, name@),
{
    if name.len() == 0 {
        return false;
    }
    if is_text(name, names.label.as_str()) {
        return true;
    }
    let mut i: usize = 0;
    while i < names.aliases.len()
        invariant
            i <= names.aliases@.len(),
            name@.len() > 0,
            name@ != names.label@,
            forall|k: int| 0 <= k < i ==> (#[trigger] names.aliases@[k])@ != name@,
        decreases names.aliases@.len() - i,
    {
        if is_text(name, names.aliases[i].as_str()) {
            return true;
        }
        i += 1;
    }
    false
}

fn find_label(names: &AgentNames, text: &[char], agent: ManifestAgent) -> (r: bool)
    ensures
        r == holds_label(*names, text@, agent),
{
    let label = agent.label(names);
    if label.is_empty() {
        return false;
    }
    let name = chars_of(label);
    let mut i: usize = 0;
    while i < text.len() && name.len() <= text.len() - i
        invariant
            i <= text.len(),
            name@ == agent_label(*names, agent),
            name@.len() > 0,
            forall|k: int| 0 <= k < i ==> !stands_alone(text@, name@, k),
        decreases text.len() - i,
    {
        if at(text, name.as_slice(), i) && (i == 0 || !alnum(text[i - 1])) && (i + name.len()
            == text.len() || !alnum(text[i + name.len()])) {
            assert(stands_alone(text@, name@, i as int));
            return true;
        }
        i += 1;
    }
    false
}

fn parse_chars(names: &AgentNames, name: &[char]) -> (r: Option<ManifestAgent>)
    ensures
        r == agent_named(*names, name@),
{
    let l = lower(trim(name));
    let l = l.as_slice();
    if find_given(names, l) {
        Some(ManifestAgent::Claude)
    } else if is_text(l, "codex") {
        Some(ManifestAgent::Codex)
    } else if is_text(l, "grok") || is_text(l, "grok-build") {
        Some(ManifestAgent::Grok)
    } else if is_text(l, "cursor") || is_text(l, "cursor-agent") {
        Some(ManifestAgent::Cursor)
    } else if is_text(l, "gemini") {
        Some(ManifestAgent::Gemini)
    } else if is_text(l, "opencode") || is_text(l, "open-code") {
        Some(ManifestAgent::OpenCode)
    } else if is_text(l, "amp") || is_text(l, "amp-local") {
        Some(ManifestAgent::Amp)
    } else {
        None
    }
}

/// An agent is found by its name, in whatever case and with whatever white space around it,
/// where the names that are given are fit.
pub proof fn labels_read_back(names: AgentNames, agent: ManifestAgent, text: Seq<char>)
    requires
        are_fit(names),
        lowered(trimmed(text)) == agent_label(names, agent),
    ensures
        agent_named(names, text) == Some(agent),
        agent_named(names, agent_label(names, agent)) == Some(agent),
{
    reveal_strlit("codex");
    reveal_strlit("grok");
    reveal_strlit("grok-build");
    reveal_strlit("cursor");
    reveal_strlit("cursor-agent");
    reveal_strlit("gemini");
    reveal_strlit("opencode");
    reveal_strlit("open-code");
    reveal_strlit("amp");
    reveal_strlit("amp-local");
    let l = agent_label(names, agent);
    if agent != ManifestAgent::Claude {
        crate::text::chars::trimmed_of_solid(l);
        assert(lowered(l) =~= l);
        assert(known_agent(l) is Some);
    }
}

/// A name is in small letters and without white space around it.
proof fn plain_label(names: AgentNames, agent: ManifestAgent)
    requires
        are_fit(names),
    ensures
        lowered(trimmed(agent_label(names, agent))) == agent_label(names, agent),
{
    reveal_strlit("codex");
    reveal_strlit("grok");
    reveal_strlit("cursor");
    reveal_strlit("gemini");
    reveal_strlit("opencode");
    reveal_strlit("amp");
    let l = agent_label(names, agent);
    if agent != ManifestAgent::Claude {
        crate::text::chars::trimmed_of_solid(l);
        assert(lowered(l) =~= l);
    }
}

/// Each agent is looked for, and once.
pub proof fn agents_are_listed_once(agent: ManifestAgent)
    ensures
        agent_list().contains(agent),
        agent_list().no_duplicates(),
        agent_list().len() == 7,
{
    let all = agent_list();
    let i: int = match agent {
        ManifestAgent::Claude => 0,
        ManifestAgent::Codex => 1,
        ManifestAgent::Grok => 2,
        ManifestAgent::Cursor => 3,
        ManifestAgent::Gemini => 4,
        ManifestAgent::OpenCode => 5,
        ManifestAgent::Amp => 6,
    };
    assert(all[i] == agent);
}

/// No two agents have the same name, where the names that are given are fit.
pub proof fn labels_are_distinct(names: AgentNames, a: ManifestAgent, b: ManifestAgent)
    requires
        are_fit(names),
        agent_label(names, a) == agent_label(names, b),
    ensures
        a == b,
{
    plain_label(names, a);
    plain_label(names, b);
    labels_read_back(names, a, agent_label(names, a));
    labels_read_back(names, b, agent_label(names, b));
}

/// A name that is neither given nor that of another agent names none.
pub proof fn other_names_name_none(names: AgentNames, text: Seq<char>)
    requires
        !is_given(names, lowered(trimmed(text))),
        known_agent(lowered(trimmed(text))) is None,
    ensures
        agent_named(names, text) is None,
{
}

/// What follows the last slash or backslash.
pub open spec fn after_slashes(s: Seq<char>) -> Seq<char> {
    let a = match last_char_position(s, '/') {
        Some(i) => i + 1,
        None => 0,
    };
    let b = match last_char_position(s, '\\') {
        Some(i) => i + 1,
        None => 0,
    };
    s.skip(
        if a >= b {
            a
        } else {
            b
        },
    )
}

/// The name of a program without its directory and what follows the first dot.
pub open spec fn base_name(token: Seq<char>) -> Seq<char> {
    let name = after_slashes(token);
    match char_position(name, '.') {
        Some(i) => name.take(i),
        None => name,
    }
}

fn token_basename<'a>(token: &'a [char]) -> (r: &'a [char])
    ensures
        r@ == base_name(token@),
{
    let a: usize = match rfind_char(token, '/') {
        Some(i) => i + 1,
        None => 0,
    };
    let b: usize = match rfind_char(token, '\\') {
        Some(i) => i + 1,
        None => 0,
    };
    let start: usize = if a >= b {
        a
    } else {
        b
    };
    let name = slice_subrange(token, start, token.len());
    assert(name@ =~= token@.skip(start as int));
    match find_char(name, '.') {
        Some(i) => {
            let head = slice_subrange(name, 0, i);
            assert(head@ =~= name@.take(i as int));
            head
        },
        None => name,
    }
}

/// A program that runs scripts.
pub open spec fn is_interpreter(base: Seq<char>) -> bool {
    base == "node"@ || base == "nodejs"@ || base == "bun"@ || base == "deno"@ || base == "python"@
        || base == "python3"@
}

/// The first of the words that is no option.
pub open spec fn first_argument(list: Seq<Seq<char>>) -> Option<Seq<char>>
    decreases list.len(),
{
    if list.len() == 0 {
        None
    } else if !begins(list[0], "-"@) {
        Some(list[0])
    } else {
        first_argument(list.drop_first())
    }
}

/// The first of the agents whose name stands in the text.
pub open spec fn agent_within(
    names: AgentNames,
    agents: Seq<ManifestAgent>,
    text: Seq<char>,
) -> Option<ManifestAgent>
    decreases agents.len(),
{
    if agents.len() == 0 {
        None
    } else if holds_label(names, text, agents[0]) {
        Some(agents[0])
    } else {
        agent_within(names, agents.drop_first(), text)
    }
}

/// One of the words names the agent or holds its name.
pub open spec fn mentions(names: AgentNames, list: Seq<Seq<char>>, agent: ManifestAgent) -> bool {
    exists|i: int|
        0 <= i < list.len() && (agent_named(names, base_name(#[trigger] list[i])) == Some(agent)
            || holds_label(names, list[i], agent))
}

/// The first of the agents that one of the words names.
pub open spec fn agent_mentioned(
    names: AgentNames,
    agents: Seq<ManifestAgent>,
    list: Seq<Seq<char>>,
) -> Option<ManifestAgent>
    decreases agents.len(),
{
    if agents.len() == 0 {
        None
    } else if mentions(names, list, agents[0]) {
        Some(agents[0])
    } else {
        agent_mentioned(names, agents.drop_first(), list)
    }
}

/// The agent that a script is: by its name, or by a name that stands in its path.
pub open spec fn script_agent(names: AgentNames, script: Seq<char>) -> Option<ManifestAgent> {
    if agent_named(names, base_name(script)) is Some {
        agent_named(names, base_name(script))
    } else {
        agent_within(names, agent_list(), lowered(script))
    }
}

/// The agent that a command starts: by the name of the program, by that of the script where
/// the program runs one, or else by any word.
pub open spec fn command_agent(names: AgentNames, command: Seq<char>) -> Option<ManifestAgent> {
    let list = words(command);
    if list.len() == 0 {
        None
    } else {
        let base = base_name(list[0]);
        let script = if is_interpreter(base) {
            match first_argument(list.drop_first()) {
                Some(s) => script_agent(names, s),
                None => None,
            }
        } else {
            None
        };
        if agent_named(names, base) is Some {
            agent_named(names, base)
        } else if script is Some {
            script
        } else {
            agent_mentioned(names, agent_list(), words(lowered(command)))
        }
    }
}

/// The agent in a pane: the one that a hint names, or else the one that the command starts.
pub open spec fn pane_agent(
    names: AgentNames,
    command: Seq<char>,
    hint: Option<Seq<char>>,
) -> Option<ManifestAgent> {
    let hinted = match hint {
        Some(h) => agent_named(names, h),
        None => None,
    };
    if hinted is Some {
        hinted
    } else {
        command_agent(names, command)
    }
}

fn find_within(names: &AgentNames, text: &[char]) -> (r: Option<ManifestAgent>)
    ensures
        r == agent_within(*names, agent_list(), text@),
{
    let agents = ManifestAgent::all();
    let mut i: usize = 0;
    assert(agents@.skip(0) =~= agents@);
    while i < agents.len()
        invariant
            i <= agents.len(),
            agents@ == agent_list(),
            agent_within(*names, agents@.skip(i as int), text@) == agent_within(
                *names,
                agent_list(),
                text@,
            ),
        decreases agents.len() - i,
    {
        assert(agents@.skip(i as int).drop_first() =~= agents@.skip(i + 1));
        if find_label(names, text, agents[i]) {
            return Some(agents[i]);
        }
        i += 1;
    }
    None
}

fn find_mention(names: &AgentNames, list: &Vec<&[char]>, agent: ManifestAgent) -> (r: bool)
    ensures
        r == mentions(*names, views(list@), agent),
{
    let mut i: usize = 0;
    while i < list.len()
        invariant
            i <= list.len(),
            forall|k: int|
                0 <= k < i ==> !(agent_named(*names, base_name(#[trigger] views(list@)[k]))
                    == Some(agent) || holds_label(*names, views(list@)[k], agent)),
        decreases list.len() - i,
    {
        let word = list[i];
        assert(views(list@)[i as int] == word@);
        let named = parse_chars(names, token_basename(word)) == Some(agent);
        if named || find_label(names, word, agent) {
            return true;
        }
        i += 1;
    }
    false
}

fn find_mentioned(names: &AgentNames, list: &Vec<&[char]>) -> (r: Option<ManifestAgent>)
    ensures
        r == agent_mentioned(*names, agent_list(), views(list@)),
{
    let agents = ManifestAgent::all();
    let mut i: usize = 0;
    assert(agents@.skip(0) =~= agents@);
    while i < agents.len()
        invariant
            i <= agents.len(),
            agents@ == agent_list(),
            agent_mentioned(*names, agents@.skip(i as int), views(list@)) == agent_mentioned(
                *names,
                agent_list(),
                views(list@),
            ),
        decreases agents.len() - i,
    {
        assert(agents@.skip(i as int).drop_first() =~= agents@.skip(i + 1));
        if find_mention(names, list, agents[i]) {
            return Some(agents[i]);
        }
        i += 1;
    }
    None
}

fn find_script<'a>(list: &Vec<&'a [char]>) -> (r: Option<&'a [char]>)
    requires
        list@.len() > 0,
    ensures
        r matches Some(s) ==> first_argument(views(list@).drop_first()) == Some(s@),
        r is None ==> first_argument(views(list@).drop_first()) is None,
{
    let ghost all = views(list@);
    let mut i: usize = 1;
    assert(all.skip(1) =~= all.drop_first());
    while i < list.len()
        invariant
            1 <= i <= list.len(),
            all == views(list@),
            first_argument(all.skip(i as int)) == first_argument(all.drop_first()),
        decreases list.len() - i,
    {
        assert(all.skip(i as int).drop_first() =~= all.skip(i + 1));
        assert(all.skip(i as int)[0] == list@[i as int]@);
        if !starts_with(list[i], "-") {
            return Some(list[i]);
        }
        i += 1;
    }
    None
}

/// The agent in a pane, by its command and a hint.
pub fn agent_from_command(names: &AgentNames, command: &str, hint: Option<&str>) -> (r: Option<
    ManifestAgent,
>)
    ensures
        r == pane_agent(*names, command@, opt_str(hint)),
{
    if let Some(h) = hint {
        let agent = ManifestAgent::parse(names, h);
        if agent.is_some() {
            return agent;
        }
    }
    let chars = chars_of(command);
    let list = split_words(chars.as_slice());
    assert(views(list@).len() == list@.len());
    if list.len() == 0 {
        return None;
    }
    assert(views(list@)[0] == list@[0]@);
    let base = token_basename(list[0]);
    let agent = parse_chars(names, base);
    if agent.is_some() {
        return agent;
    }
    if is_text(base, "node") || is_text(base, "nodejs") || is_text(base, "bun") || is_text(
        base,
        "deno",
    ) || is_text(base, "python") || is_text(base, "python3") {
        if let Some(script) = find_script(&list) {
            let agent = parse_chars(names, token_basename(script));
            if agent.is_some() {
                return agent;
            }
            let small = lower(script);
            let agent = find_within(names, small.as_slice());
            if agent.is_some() {
                return agent;
            }
        }
    }
    let small = lower(chars.as_slice());
    let small_words = split_words(small.as_slice());
    find_mentioned(names, &small_words)
}

/// Whether the status of a pane is read from its screen first.
pub fn screen_is_status_authority(names: &AgentNames, command: &str, hint: Option<&str>) -> (r: bool)
    ensures
        r == (pane_agent(*names, command@, opt_str(hint)) is Some),
{
    agent_from_command(names, command, hint).is_some()
}

/// What is known of a process: its name and the bytes of its command line.
pub struct ProcessFacts {
    pub comm: String,
    pub cmdline: Vec<u8>,
}

/// The command line with a space for each zero.
pub open spec fn spaced(s: Seq<char>) -> Seq<char> {
    s.map_values(
        |c: char|
            if c == '\0' {
                ' '
            } else {
                c
            },
    )
}

/// The agent that a process is.
pub open spec fn process_agent(
    names: AgentNames,
    p: ProcessFacts,
    hint: Option<Seq<char>>,
) -> Option<ManifestAgent> {
    if agent_named(names, trimmed(p.comm@)) is Some {
        agent_named(names, trimmed(p.comm@))
    } else {
        pane_agent(names, trimmed(spaced(utf8_lossy(p.cmdline@))), hint)
    }
}

/// The agent that the first of the processes that is one is.
pub open spec fn tree_agent(
    names: AgentNames,
    list: Seq<ProcessFacts>,
    hint: Option<Seq<char>>,
) -> Option<ManifestAgent>
    decreases list.len(),
{
    if list.len() == 0 {
        None
    } else if process_agent(names, list[0], hint) is Some {
        process_agent(names, list[0], hint)
    } else {
        tree_agent(names, list.drop_first(), hint)
    }
}

fn agent_of_process(names: &AgentNames, p: &ProcessFacts, hint: Option<&str>) -> (r: Option<
    ManifestAgent,
>)
    ensures
        r == process_agent(*names, *p, opt_str(hint)),
{
    let comm = chars_of(p.comm.as_str());
    let agent = parse_chars(names, trim(comm.as_slice()));
    if agent.is_some() {
        return agent;
    }
    let text = decode_lossy(p.cmdline.as_slice());
    let chars = chars_of(text.as_str());
    let mut line: Vec<char> = Vec::new();
    let mut i: usize = 0;
    while i < chars.len()
        invariant
            i <= chars.len(),
            line@ == spaced(chars@).take(i as int),
        decreases chars.len() - i,
    {
        let c = if chars[i] == '\0' {
            ' '
        } else {
            chars[i]
        };
        line.push(c);
        i += 1;
        assert(spaced(chars@).take(i as int) =~= spaced(chars@).take(i - 1).push(c));
    }
    assert(spaced(chars@).take(i as int) =~= spaced(chars@));
    let command = crate::text::chars::string_of(trim(line.as_slice()));
    agent_from_command(names, command.as_str(), hint)
}

/// The agent among the processes below that of a pane.
pub fn agent_from_process_tree(
    names: &AgentNames,
    list: &Vec<ProcessFacts>,
    hint: Option<&str>,
) -> (r: Option<ManifestAgent>)
    ensures
        r == tree_agent(*names, list@, opt_str(hint)),
{
    let mut i: usize = 0;
    assert(list@.skip(0) =~= list@);
    while i < list.len()
        invariant
            i <= list.len(),
            tree_agent(*names, list@.skip(i as int), opt_str(hint)) == tree_agent(
                *names,
                list@,
                opt_str(hint),
            ),
        decreases list.len() - i,
    {
        assert(list@.skip(i as int).drop_first() =~= list@.skip(i + 1));
        let agent = agent_of_process(names, &list[i], hint);
        if agent.is_some() {
            return agent;
        }
        i += 1;
    }
    None
}

/// Whether the status of a pane is read from its screen first: its command is an agent, or
/// one of the processes below it is.
pub fn screen_is_status_authority_for_pane(
    names: &AgentNames,
    command: &str,
    hint: Option<&str>,
    processes: &Vec<ProcessFacts>,
) -> (r: bool)
    ensures
        r == (pane_agent(*names, command@, opt_str(hint)) is Some || tree_agent(
            *names,
            processes@,
            opt_str(hint),
        ) is Some),
{
    screen_is_status_authority(names, command, hint) || agent_from_process_tree(
        names,
        processes,
        hint,
    ).is_some()
}

/// What the screen of an agent says.
#[derive(Debug)]
pub struct Detection {
    pub agent: Option<String>,
    pub state: DetectedState,
    pub skip_state_update: bool,
    pub visible_idle: bool,
    pub visible_blocker: bool,
    pub visible_working: bool,
    pub matched_rule: Option<String>,
    pub fallback_reason: Option<&'static str>,
}

/// The rules of the agents.
pub struct ManifestCache {
    pub items: Vec<(ManifestAgent, LoadedManifest)>,
}

/// The place of the rules of an agent.
pub open spec fn rules_index(
    items: Seq<(ManifestAgent, LoadedManifest)>,
    agent: ManifestAgent,
) -> Option<int>
    decreases items.len(),
{
    if items.len() == 0 {
        None
    } else if items[0].0 == agent {
        Some(0)
    } else {
        match rules_index(items.drop_first(), agent) {
            Some(i) => Some(i + 1),
            None => None,
        }
    }
}

fn find_rules(cache: &ManifestCache, agent: ManifestAgent) -> (r: Option<usize>)
    ensures
        r matches Some(i) ==> rules_index(cache.items@, agent) == Some(i as int) && i
            < cache.items@.len(),
        r is None ==> rules_index(cache.items@, agent) is None,
{
    let mut i: usize = 0;
    assert(cache.items@.skip(0) =~= cache.items@);
    while i < cache.items.len()
        invariant
            i <= cache.items.len(),
            rules_index(cache.items@, agent) == match rules_index(
                cache.items@.skip(i as int),
                agent,
            ) {
                Some(k) => Some(k + i),
                None => None,
            },
        decreases cache.items.len() - i,
    {
        assert(cache.items@.skip(i as int).drop_first() =~= cache.items@.skip(i + 1));
        if cache.items[i].0 == agent {
            return Some(i);
        }
        i += 1;
    }
    None
}

/// Every text that the rules of the agent look at can be cut out of the screen.
pub open spec fn agent_readable(
    cache: ManifestCache,
    agent: ManifestAgent,
    input: DetectionInput,
) -> bool {
    rules_index(cache.items@, agent) matches Some(i) ==> texts_readable(
        cache.items@[i].1.rules(),
        input,
    )
}

/// Whether every text that the rules of the agent look at can be cut out of the screen.
pub fn can_detect(cache: &ManifestCache, agent: ManifestAgent, input: &DetectionInput) -> (r: bool)
    ensures
        r == agent_readable(*cache, agent, *input),
{
    match find_rules(cache, agent) {
        Some(i) => can_read_texts(&cache.items[i].1, input),
        None => true,
    }
}

/// `d` is what `found` says, of the agent.
pub open spec fn detection_of(
    names: AgentNames,
    d: Detection,
    found: ManifestDetection,
    agent: ManifestAgent,
) -> bool {
    &&& opt_text(d.agent) == Some(agent_label(names, agent))
    &&& d.state == found.state
    &&& d.skip_state_update == found.skip_state_update
    &&& d.visible_idle == found.visible_idle
    &&& d.visible_blocker == found.visible_blocker
    &&& d.visible_working == found.visible_working
    &&& d.matched_rule == found.matched_rule
    &&& d.fallback_reason == found.fallback_reason
}

/// `d` is what the rules of the agent say of its screen.
pub open spec fn detected(
    names: AgentNames,
    cache: ManifestCache,
    agent: ManifestAgent,
    input: DetectionInput,
    d: Detection,
) -> bool {
    exists|found: ManifestDetection| #[trigger]
        detection_of(names, d, found, agent) && match rules_index(cache.items@, agent) {
            Some(n) => {
                let rules = cache.items@[n].1.rules();
                match deciding_rule(rules, input) {
                    Some(i) => says(rules[i], found),
                    None => is_fallback(found),
                }
            },
            None => is_fallback(found),
        }
}

/// What the screen and the reports of an agent say that it is doing.
pub fn detect_agent(
    names: &AgentNames,
    cache: &ManifestCache,
    agent: ManifestAgent,
    input: DetectionInput,
) -> (r: Detection)
    requires
        agent_readable(*cache, agent, input),
    ensures
        detected(*names, *cache, agent, input, r),
{
    let loaded = match find_rules(cache, agent) {
        Some(i) => Some(&cache.items[i].1),
        None => None,
    };
    let found = detect_with_osc(loaded, input);
    let ghost said = found;
    let d = Detection {
        agent: Some(agent.label(names).to_string()),
        state: found.state,
        skip_state_update: found.skip_state_update,
        visible_idle: found.visible_idle,
        visible_blocker: found.visible_blocker,
        visible_working: found.visible_working,
        matched_rule: found.matched_rule,
        fallback_reason: found.fallback_reason,
    };
    assert(detection_of(*names, d, said, agent));
    d
}

/// The agent in a pane: the one that its command starts, or else one of the processes.
pub open spec fn agent_in_pane(
    names: AgentNames,
    command: Seq<char>,
    hint: Option<Seq<char>>,
    processes: Seq<ProcessFacts>,
) -> Option<ManifestAgent> {
    if pane_agent(names, command, hint) is Some {
        pane_agent(names, command, hint)
    } else {
        tree_agent(names, processes, hint)
    }
}

/// What the screen of the agent in a pane says; none where there is no agent in it.
pub fn detect_for_command_or_pid(
    names: &AgentNames,
    cache: &ManifestCache,
    command: &str,
    hint: Option<&str>,
    processes: &Vec<ProcessFacts>,
    input: DetectionInput,
) -> (r: Option<Detection>)
    requires
        agent_in_pane(*names, command@, opt_str(hint), processes@) matches Some(agent) ==> agent_readable(
            *cache,
            agent,
            input,
        ),
    ensures
        r is Some <==> agent_in_pane(*names, command@, opt_str(hint), processes@) is Some,
        r matches Some(d) ==> detected(
            *names,
            *cache,
            agent_in_pane(*names, command@, opt_str(hint), processes@)->0,
            input,
            d,
        ),
{
    let agent = match agent_from_command(names, command, hint) {
        Some(a) => Some(a),
        None => agent_from_process_tree(names, processes, hint),
    };
    match agent {
        Some(a) => Some(detect_agent(names, cache, a, input)),
        None => None,
    }
}

/// The status that a pane has where its agent is in the state.
pub open spec fn status_for(state: DetectedState) -> AgentStatus {
    match state {
        DetectedState::Working => AgentStatus::Busy,
        DetectedState::Blocked => AgentStatus::Attention,
        DetectedState::Idle => AgentStatus::Idle,
        DetectedState::Unknown => AgentStatus::Unknown,
    }
}

/// The status that a pane has where its agent is in the state.
pub fn to_agent_status(state: DetectedState) -> (r: AgentStatus)
    ensures
        r == status_for(state),
{
    match state {
        DetectedState::Working => AgentStatus::Busy,
        DetectedState::Blocked => AgentStatus::Attention,
        DetectedState::Idle => AgentStatus::Idle,
        DetectedState::Unknown => AgentStatus::Unknown,
    }
}

/// The status that a screen makes of the current one: a finished turn stays so until there
/// is work again or a question; any other gives way to what the screen says.
pub open spec fn merged_status(current: AgentStatus, state: DetectedState) -> AgentStatus {
    if current == AgentStatus::Done && (state == DetectedState::Idle || state
        == DetectedState::Unknown) {
        AgentStatus::Done
    } else {
        status_for(state)
    }
}

/// The status that a pane gets from its screen, and whether it is pinned; none where it
/// keeps its own.
pub fn merge_screen_status(current: AgentStatus, detection: &Detection) -> (r: Option<
    (AgentStatus, bool),
>)
    ensures
        r == if detection.skip_state_update || merged_status(current, detection.state) == current {
            None
        } else {
            Some((merged_status(current, detection.state), false))
        },
{
    if detection.skip_state_update {
        return None;
    }
    let screen = to_agent_status(detection.state);
    let next = if current == AgentStatus::Done && (screen == AgentStatus::Idle || screen
        == AgentStatus::Unknown) {
        AgentStatus::Done
    } else {
        screen
    };
    let pinned = next == AgentStatus::Done;
    if next == current {
        return None;
    }
    Some((next, pinned))
}

/// What a screen showed once, it shows again: a second look changes nothing.
pub proof fn second_look_changes_nothing(current: AgentStatus, state: DetectedState)
    ensures
        merged_status(merged_status(current, state), state) == merged_status(current, state),
{
}

/// A stale error gives way to whatever the screen says.
pub proof fn errors_give_way(state: DetectedState)
    ensures
        merged_status(AgentStatus::Error, state) == status_for(state),
{
}

/// What an agent needs, by the name of the rule that found it waiting.
pub open spec fn need_of(rule: Option<Seq<char>>) -> Seq<char> {
    match rule {
        Some(r) => if has_text(r, "permission"@) || has_text(r, "bash_permission"@) || has_text(
            r,
            "allow"@,
        ) {
            " needs permission"@
        } else if has_text(r, "blocked"@) || has_text(r, "prompt"@) {
            " needs input"@
        } else if has_text(r, "workflow"@) {
            " needs a decision"@
        } else {
            " needs input"@
        },
        None => " needs input"@,
    }
}

/// The message for an agent that waits for its user.
pub open spec fn waiting_message(agent: Option<Seq<char>>, rule: Option<Seq<char>>) -> Seq<char> {
    (match agent {
        Some(a) => a,
        None => "agent"@,
    }) + need_of(rule)
}

/// The message for an agent that waits for its user.
pub fn screen_attention_message(detection: &Detection) -> (r: String)
    ensures
        r@ == waiting_message(opt_text(detection.agent), opt_text(detection.matched_rule)),
{
    let mut out = match &detection.agent {
        Some(a) => a.clone(),
        None => "agent".to_string(),
    };
    match &detection.matched_rule {
        Some(rule) => {
            let chars = chars_of(rule.as_str());
            let r = chars.as_slice();
            if contains(r, "permission") || contains(r, "bash_permission") || contains(
                r,
                "allow",
            ) {
                out.append(" needs permission");
            } else if contains(r, "blocked") || contains(r, "prompt") {
                out.append(" needs input");
            } else if contains(r, "workflow") {
                out.append(" needs a decision");
            } else {
                out.append(" needs input");
            }
        },
        None => {
            out.append(" needs input");
        },
    }
    out
}

/// `after` is the pane `before` with the banner that its new status calls for.
pub open spec fn bannered(
    before: Pane,
    after: Pane,
    next: AgentStatus,
    detection: Detection,
) -> bool {
    &&& after == Pane {
        notification_color: after.notification_color,
        notification_message: after.notification_message,
        ..before
    }
    &&& if next == AgentStatus::Attention {
        opt_text(after.notification_color) == Some("blue"@) && opt_text(after.notification_message)
            == Some(waiting_message(opt_text(detection.agent), opt_text(detection.matched_rule)))
    } else {
        after.notification_message is None
    }
}

/// Gives a pane the banner that its new status calls for: a message where it waits for its
/// user, and none where it does not.
pub fn apply_screen_notification_banner(
    pane: &mut Pane,
    previous: &AgentStatus,
    next: &AgentStatus,
    detection: &Detection,
)
    ensures
        bannered(*old(pane), *final(pane), *next, *detection),
        *next != AgentStatus::Attention ==> final(pane).notification_color == if *previous
            == AgentStatus::Attention || old(pane).notification_message is Some {
            None
        } else {
            old(pane).notification_color
        },
{
    if *next == AgentStatus::Attention {
        pane.notification_color = Some("blue".to_string());
        pane.notification_message = Some(screen_attention_message(detection));
    } else if *previous == AgentStatus::Attention || pane.notification_message.is_some() {
        pane.notification_message = None;
        pane.notification_color = None;
    }
}

} // verus!
