//! Rules by which the screen of an agent is read.
use crate::detect::regions::{cut_region, named_region, parse_region, region_text, Region};
use crate::text::chars::{chars_of, contains_chars, has_text, opt_text, string_of, views};
use crate::text::lines::{line_list, split_lines};
use vstd::prelude::*;

verus! {

/// The reason that is given where no rule matches.
pub const DEFAULT_KNOWN_AGENT_IDLE_FALLBACK: &'static str = "default_known_agent_idle_fallback";

/// What an agent is doing.
#[derive(Debug, Clone, Copy, PartialEq, Eq, Structural)]
pub enum DetectedState {
    Idle,
    Working,
    Blocked,
    Unknown,
}

/// What rules look at.
#[derive(Debug, Clone, Copy)]
pub struct DetectionInput<'a> {
    pub screen: &'a str,
    pub osc_title: &'a str,
    pub osc_progress: &'a str,
}

/// What the rules say.
#[derive(Debug)]
pub struct ManifestDetection {
    pub state: DetectedState,
    pub skip_state_update: bool,
    pub visible_idle: bool,
    pub visible_blocker: bool,
    pub visible_working: bool,
    pub matched_rule: Option<String>,
    pub fallback_reason: Option<&'static str>,
}

/// A condition on a text: all of its parts must hold.
#[derive(Debug)]
pub struct ManifestGate {
    pub all: Vec<ManifestGate>,
    /// One of these must hold, where there are any.
    pub any: Vec<ManifestGate>,
    /// None of these may hold.
    pub not_gate: Vec<ManifestGate>,
    /// Texts that must stand in it, whatever their case.
    pub contains: Vec<String>,
    /// Patterns that must match it.
    pub regex: Vec<String>,
    /// Patterns that must each match one of its lines.
    pub line_regex: Vec<String>,
}

/// A rule: what an agent is doing where a condition holds of a part of its screen.
#[derive(Debug)]
pub struct ManifestRule {
    pub id: String,
    pub state: Option<DetectedState>,
    pub priority: i32,
    /// The name of the part of the screen.
    pub region: String,
    pub visible_idle: bool,
    pub visible_blocker: bool,
    pub visible_working: bool,
    pub skip_state_update: bool,
    pub gate: ManifestGate,
}

/// The rules of an agent.
#[derive(Debug)]
pub struct AgentManifest {
    pub id: String,
    pub rules: Vec<ManifestRule>,
}

/// A regular expression of the `regex` crate.
#[verifier::external_type_specification]
#[verifier::external_body]
pub struct ExRegex(regex::Regex);

/// The pattern that a regular expression was made from, which `regex::Regex::as_str` gives back.
pub uninterp spec fn regex_source(r: regex::Regex) -> Seq<char>;

/// What is wrong with a pattern; none where it is one.
pub uninterp spec fn pattern_problem(pattern: Seq<char>) -> Option<Seq<char>>;

/// The pattern matches somewhere in the text.
pub uninterp spec fn pattern_matches(pattern: Seq<char>, text: Seq<char>) -> bool;

/// The text in small letters, by the rules of Unicode.
pub uninterp spec fn small_text(s: Seq<char>) -> Seq<char>;

/// Calls `regex::Regex::new`, which makes a regular expression from a pattern or says what
/// is wrong with it. Which of them depends on the pattern alone.
#[verifier::external_body]
fn compile_pattern(pattern: &str) -> (r: Result<regex::Regex, String>)
    ensures
        r matches Ok(x) ==> regex_source(x) == pattern@ && pattern_problem(pattern@) is None,
        r matches Err(m) ==> pattern_problem(pattern@) == Some(m@),
{
    regex::Regex::new(pattern).map_err(|e| e.to_string())
}

/// `regex::Regex::is_match` tells whether there is a match anywhere in the text.
pub assume_specification[ regex::Regex::is_match ](re: &regex::Regex, haystack: &str) -> (r: bool)
    ensures
        r == pattern_matches(regex_source(*re), haystack@),
;

/// `str::to_lowercase` returns the text in small letters, by the rules of Unicode.
#[verifier::external_body]
fn to_lowercase(s: &str) -> (r: String)
    ensures
        r@ == small_text(s@),
{
    s.to_lowercase()
}

/// A condition whose patterns have been read.
pub struct CompiledGate {
    pub all: Vec<CompiledGate>,
    pub any: Vec<CompiledGate>,
    pub not_gate: Vec<CompiledGate>,
    /// In small letters.
    pub contains: Vec<String>,
    pub regex: Vec<regex::Regex>,
    pub line_regex: Vec<regex::Regex>,
}

/// The rules of an agent with their conditions read.
pub struct LoadedManifest {
    manifest: AgentManifest,
    compiled_rules: Vec<CompiledGate>,
}

/// The condition holds of the text.
pub open spec fn gate_holds(g: ManifestGate, text: Seq<char>) -> bool
    decreases g,
{
    &&& forall|i: int|
        0 <= i < g.contains@.len() ==> has_text(
            small_text(text),
            small_text((#[trigger] g.contains@[i])@),
        )
    &&& forall|i: int|
        0 <= i < g.regex@.len() ==> pattern_matches((#[trigger] g.regex@[i])@, text)
    &&& forall|i: int|
        0 <= i < g.line_regex@.len() ==> matches_a_line((#[trigger] g.line_regex@[i])@, text)
    &&& forall|i: int| 0 <= i < g.all@.len() ==> gate_holds(#[trigger] g.all@[i], text)
    &&& g.any@.len() > 0 ==> exists|i: int|
        0 <= i < g.any@.len() && gate_holds(#[trigger] g.any@[i], text)
    &&& forall|i: int| 0 <= i < g.not_gate@.len() ==> !gate_holds(#[trigger] g.not_gate@[i], text)
}

/// The pattern matches a line of the text.
pub open spec fn matches_a_line(pattern: Seq<char>, text: Seq<char>) -> bool {
    exists|j: int|
        0 <= j < line_list(text).len() && pattern_matches(
            pattern,
            #[trigger] line_list(text)[j],
        )
}

/// `c` is the condition `g` with its patterns read.
pub open spec fn compiled(g: ManifestGate, c: CompiledGate) -> bool
    decreases g,
{
    &&& c.contains@.len() == g.contains@.len()
    &&& forall|i: int|
        0 <= i < g.contains@.len() ==> (#[trigger] c.contains@[i])@ == small_text(g.contains@[i]@)
    &&& c.regex@.len() == g.regex@.len()
    &&& forall|i: int|
        0 <= i < g.regex@.len() ==> regex_source(#[trigger] c.regex@[i]) == g.regex@[i]@
    &&& c.line_regex@.len() == g.line_regex@.len()
    &&& forall|i: int|
        0 <= i < g.line_regex@.len() ==> regex_source(#[trigger] c.line_regex@[i])
            == g.line_regex@[i]@
    &&& c.all@.len() == g.all@.len()
    &&& forall|i: int| 0 <= i < g.all@.len() ==> compiled(g.all@[i], #[trigger] c.all@[i])
    &&& c.any@.len() == g.any@.len()
    &&& forall|i: int| 0 <= i < g.any@.len() ==> compiled(g.any@[i], #[trigger] c.any@[i])
    &&& c.not_gate@.len() == g.not_gate@.len()
    &&& forall|i: int|
        0 <= i < g.not_gate@.len() ==> compiled(g.not_gate@[i], #[trigger] c.not_gate@[i])
}

/// All patterns of the condition can be read.
pub open spec fn readable(g: ManifestGate) -> bool
    decreases g,
{
    &&& forall|i: int|
        0 <= i < g.regex@.len() ==> pattern_problem((#[trigger] g.regex@[i])@) is None
    &&& forall|i: int|
        0 <= i < g.line_regex@.len() ==> pattern_problem((#[trigger] g.line_regex@[i])@) is None
    &&& forall|i: int| 0 <= i < g.all@.len() ==> readable(#[trigger] g.all@[i])
    &&& forall|i: int| 0 <= i < g.any@.len() ==> readable(#[trigger] g.any@[i])
    &&& forall|i: int| 0 <= i < g.not_gate@.len() ==> readable(#[trigger] g.not_gate@[i])
}

/// The message is what is wrong with one of the patterns of the condition.
pub open spec fn is_problem_of(g: ManifestGate, message: Seq<char>) -> bool
    decreases g,
{
    ||| exists|i: int|
        0 <= i < g.regex@.len() && pattern_problem((#[trigger] g.regex@[i])@) == Some(message)
    ||| exists|i: int|
        0 <= i < g.line_regex@.len() && pattern_problem((#[trigger] g.line_regex@[i])@) == Some(
            message,
        )
    ||| exists|i: int| 0 <= i < g.all@.len() && is_problem_of(#[trigger] g.all@[i], message)
    ||| exists|i: int| 0 <= i < g.any@.len() && is_problem_of(#[trigger] g.any@[i], message)
    ||| exists|i: int|
        0 <= i < g.not_gate@.len() && is_problem_of(#[trigger] g.not_gate@[i], message)
}

fn compile_patterns(patterns: &Vec<String>) -> (r: Result<Vec<regex::Regex>, String>)
    ensures
        r is Ok <==> (forall|i: int|
            0 <= i < patterns@.len() ==> pattern_problem((#[trigger] patterns@[i])@) is None),
        r matches Ok(v) ==> v@.len() == patterns@.len() && (forall|i: int|
            0 <= i < patterns@.len() ==> regex_source(#[trigger] v@[i]) == patterns@[i]@),
        r matches Err(m) ==> exists|i: int|
            0 <= i < patterns@.len() && pattern_problem((#[trigger] patterns@[i])@) == Some(m@),
{
    let mut out: Vec<regex::Regex> = Vec::new();
    let mut i: usize = 0;
    while i < patterns.len()
        invariant
            i <= patterns.len(),
            out@.len() == i,
            forall|k: int| 0 <= k < i ==> regex_source(#[trigger] out@[k]) == patterns@[k]@,
            forall|k: int|
                0 <= k < i ==> pattern_problem((#[trigger] patterns@[k])@) is None,
        decreases patterns.len() - i,
    {
        match compile_pattern(patterns[i].as_str()) {
            Ok(x) => {
                out.push(x);
            },
            Err(m) => {
                assert(pattern_problem(patterns@[i as int]@) == Some(m@));
                return Err(m);
            },
        }
        i += 1;
    }
    Ok(out)
}

fn compile_gates(gates: &Vec<ManifestGate>) -> (r: Result<Vec<CompiledGate>, String>)
    ensures
        r is Ok <==> (forall|i: int|
            0 <= i < gates@.len() ==> readable(#[trigger] gates@[i])),
        r matches Ok(v) ==> v@.len() == gates@.len() && (forall|i: int|
            0 <= i < gates@.len() ==> compiled(gates@[i], #[trigger] v@[i])),
        r matches Err(m) ==> exists|i: int|
            0 <= i < gates@.len() && is_problem_of(#[trigger] gates@[i], m@),
    decreases *gates, 0int,
{
    let mut out: Vec<CompiledGate> = Vec::new();
    let mut i: usize = 0;
    while i < gates.len()
        invariant
            i <= gates.len(),
            out@.len() == i,
            forall|k: int| 0 <= k < i ==> compiled(gates@[k], #[trigger] out@[k]),
            forall|k: int| 0 <= k < i ==> readable(#[trigger] gates@[k]),
        decreases gates.len() - i,
    {
        assert(decreases_to!(*gates => gates@[i as int]));
        match compile_gate(&gates[i]) {
            Ok(g) => {
                out.push(g);
            },
            Err(m) => {
                assert(is_problem_of(gates@[i as int], m@));
                assert(!readable(gates@[i as int]));
                return Err(m);
            },
        }
        i += 1;
    }
    Ok(out)
}

/// Reads the patterns of a condition. Where some cannot be read, says what is wrong with
/// one of them.
pub fn compile_gate(gate: &ManifestGate) -> (r: Result<CompiledGate, String>)
    ensures
        r is Ok <==> readable(*gate),
        r matches Ok(c) ==> compiled(*gate, c),
        r matches Err(m) ==> is_problem_of(*gate, m@),
    decreases *gate, 1int,
{
    let all = match compile_gates(&gate.all) {
        Ok(v) => v,
        Err(m) => {
            return Err(m);
        },
    };
    let any = match compile_gates(&gate.any) {
        Ok(v) => v,
        Err(m) => {
            return Err(m);
        },
    };
    let not_gate = match compile_gates(&gate.not_gate) {
        Ok(v) => v,
        Err(m) => {
            return Err(m);
        },
    };
    let mut contains: Vec<String> = Vec::new();
    let mut i: usize = 0;
    while i < gate.contains.len()
        invariant
            i <= gate.contains.len(),
            contains@.len() == i,
            forall|k: int|
                0 <= k < i ==> (#[trigger] contains@[k])@ == small_text(gate.contains@[k]@),
        decreases gate.contains.len() - i,
    {
        contains.push(to_lowercase(gate.contains[i].as_str()));
        i += 1;
    }
    let regex = match compile_patterns(&gate.regex) {
        Ok(v) => v,
        Err(m) => {
            return Err(m);
        },
    };
    let line_regex = match compile_patterns(&gate.line_regex) {
        Ok(v) => v,
        Err(m) => {
            return Err(m);
        },
    };
    Ok(CompiledGate { all, any, not_gate, contains, regex, line_regex })
}

/// A rule whose patterns cannot be read, and what is wrong with one of them.
#[derive(Debug)]
pub struct RuleProblem {
    pub rule: String,
    pub message: String,
}

/// `c` are the conditions of the rules with their patterns read.
pub open spec fn rules_compiled(rules: Seq<ManifestRule>, c: Seq<CompiledGate>) -> bool {
    &&& c.len() == rules.len()
    &&& forall|i: int| 0 <= i < rules.len() ==> compiled(rules[i].gate, #[trigger] c[i])
}

/// Reads the patterns of all rules. Where some cannot be read, names the first rule with
/// such a pattern.
pub fn compile_manifest(manifest: &AgentManifest) -> (r: Result<Vec<CompiledGate>, RuleProblem>)
    ensures
        r is Ok <==> (forall|i: int|
            0 <= i < manifest.rules@.len() ==> readable((#[trigger] manifest.rules@[i]).gate)),
        r matches Ok(c) ==> rules_compiled(manifest.rules@, c@),
        r matches Err(p) ==> exists|i: int|
            0 <= i < manifest.rules@.len() && p.rule@ == (#[trigger] manifest.rules@[i]).id@
                && is_problem_of(manifest.rules@[i].gate, p.message@) && (forall|k: int|
                0 <= k < i ==> readable((#[trigger] manifest.rules@[k]).gate)),
{
    let mut out: Vec<CompiledGate> = Vec::new();
    let mut i: usize = 0;
    while i < manifest.rules.len()
        invariant
            i <= manifest.rules.len(),
            out@.len() == i,
            forall|k: int|
                0 <= k < i ==> compiled(manifest.rules@[k].gate, #[trigger] out@[k]),
            forall|k: int| 0 <= k < i ==> readable((#[trigger] manifest.rules@[k]).gate),
        decreases manifest.rules.len() - i,
    {
        match compile_gate(&manifest.rules[i].gate) {
            Ok(c) => {
                out.push(c);
            },
            Err(message) => {
                let rule = manifest.rules[i].id.clone();
                assert(!readable(manifest.rules@[i as int].gate));
                assert(manifest.rules@[i as int].id@ == rule@);
                return Err(RuleProblem { rule, message });
            },
        }
        i += 1;
    }
    Ok(out)
}

impl LoadedManifest {
    /// The rules.
    pub closed spec fn rules(self) -> Seq<ManifestRule> {
        self.manifest.rules@
    }

    /// The conditions are those of the rules.
    #[verifier::type_invariant]
    spec fn wf(self) -> bool {
        rules_compiled(self.manifest.rules@, self.compiled_rules@)
    }
}

/// Makes the rules of an agent ready for use.
pub fn load_rules(manifest: AgentManifest) -> (r: Result<LoadedManifest, RuleProblem>)
    ensures
        r is Ok <==> (forall|i: int|
            0 <= i < manifest.rules@.len() ==> readable((#[trigger] manifest.rules@[i]).gate)),
        r matches Ok(l) ==> l.rules() == manifest.rules@,
        r matches Err(p) ==> exists|i: int|
            0 <= i < manifest.rules@.len() && p.rule@ == (#[trigger] manifest.rules@[i]).id@
                && is_problem_of(manifest.rules@[i].gate, p.message@) && (forall|k: int|
                0 <= k < i ==> readable((#[trigger] manifest.rules@[k]).gate)),
{
    match compile_manifest(&manifest) {
        Ok(compiled_rules) => Ok(LoadedManifest { manifest, compiled_rules }),
        Err(p) => Err(p),
    }
}

fn all_contained(contains: &Vec<String>, lower: &[char]) -> (r: bool)
    ensures
        r == forall|i: int|
            0 <= i < contains@.len() ==> has_text(lower@, (#[trigger] contains@[i])@),
{
    let mut i: usize = 0;
    while i < contains.len()
        invariant
            i <= contains.len(),
            forall|k: int| 0 <= k < i ==> has_text(lower@, (#[trigger] contains@[k])@),
        decreases contains.len() - i,
    {
        let needle = chars_of(contains[i].as_str());
        if !contains_chars(lower, needle.as_slice()) {
            assert(!has_text(lower@, contains@[i as int]@));
            return false;
        }
        i += 1;
    }
    true
}

fn all_match(regex: &Vec<regex::Regex>, text: &str) -> (r: bool)
    ensures
        r == forall|i: int|
            0 <= i < regex@.len() ==> pattern_matches(regex_source(#[trigger] regex@[i]), text@),
{
    let mut i: usize = 0;
    while i < regex.len()
        invariant
            i <= regex.len(),
            forall|k: int|
                0 <= k < i ==> pattern_matches(regex_source(#[trigger] regex@[k]), text@),
        decreases regex.len() - i,
    {
        if !regex[i].is_match(text) {
            assert(!pattern_matches(regex_source(regex@[i as int]), text@));
            return false;
        }
        i += 1;
    }
    true
}

fn matches_line(regex: &regex::Regex, text: &str) -> (r: bool)
    ensures
        r == matches_a_line(regex_source(*regex), text@),
{
    let chars = chars_of(text);
    let lines = split_lines(chars.as_slice());
    let ghost all = line_list(text@);
    let mut i: usize = 0;
    while i < lines.len()
        invariant
            i <= lines.len(),
            all == views(lines@),
            all == line_list(text@),
            forall|k: int| 0 <= k < i ==> !pattern_matches(regex_source(*regex), #[trigger] all[k]),
        decreases lines.len() - i,
    {
        let line = string_of(lines[i]);
        assert(line@ == all[i as int]);
        if regex.is_match(line.as_str()) {
            assert(pattern_matches(regex_source(*regex), line_list(text@)[i as int]));
            return true;
        }
        i += 1;
    }
    false
}

fn all_match_lines(regex: &Vec<regex::Regex>, text: &str) -> (r: bool)
    ensures
        r == forall|i: int|
            0 <= i < regex@.len() ==> matches_a_line(regex_source(#[trigger] regex@[i]), text@),
{
    let mut i: usize = 0;
    while i < regex.len()
        invariant
            i <= regex.len(),
            forall|k: int|
                0 <= k < i ==> matches_a_line(regex_source(#[trigger] regex@[k]), text@),
        decreases regex.len() - i,
    {
        if !matches_line(&regex[i], text) {
            assert(!matches_a_line(regex_source(regex@[i as int]), text@));
            return false;
        }
        i += 1;
    }
    true
}

/// The condition, as it was read, holds of the text.
pub open spec fn compiled_holds(c: CompiledGate, text: Seq<char>) -> bool
    decreases c,
{
    &&& forall|i: int|
        0 <= i < c.contains@.len() ==> has_text(small_text(text), (#[trigger] c.contains@[i])@)
    &&& forall|i: int|
        0 <= i < c.regex@.len() ==> pattern_matches(regex_source(#[trigger] c.regex@[i]), text)
    &&& forall|i: int|
        0 <= i < c.line_regex@.len() ==> matches_a_line(
            regex_source(#[trigger] c.line_regex@[i]),
            text,
        )
    &&& forall|i: int| 0 <= i < c.all@.len() ==> compiled_holds(#[trigger] c.all@[i], text)
    &&& c.any@.len() > 0 ==> exists|i: int|
        0 <= i < c.any@.len() && compiled_holds(#[trigger] c.any@[i], text)
    &&& forall|i: int|
        0 <= i < c.not_gate@.len() ==> !compiled_holds(#[trigger] c.not_gate@[i], text)
}

/// Reading the patterns of a condition does not change what it says.
pub proof fn compiling_keeps_meaning(g: ManifestGate, c: CompiledGate, text: Seq<char>)
    requires
        compiled(g, c),
    ensures
        compiled_holds(c, text) == gate_holds(g, text),
    decreases g,
{
    assert forall|i: int|
        #![trigger c.all@[i]]
        #![trigger g.all@[i]]
        0 <= i < g.all@.len() implies compiled_holds(c.all@[i], text) == gate_holds(
        g.all@[i],
        text,
    ) by {
        compiling_keeps_meaning(g.all@[i], c.all@[i], text);
    }
    assert forall|i: int|
        #![trigger c.any@[i]]
        #![trigger g.any@[i]]
        0 <= i < g.any@.len() implies compiled_holds(c.any@[i], text) == gate_holds(
        g.any@[i],
        text,
    ) by {
        compiling_keeps_meaning(g.any@[i], c.any@[i], text);
    }
    assert forall|i: int|
        #![trigger c.not_gate@[i]]
        #![trigger g.not_gate@[i]]
        0 <= i < g.not_gate@.len() implies compiled_holds(c.not_gate@[i], text) == gate_holds(
        g.not_gate@[i],
        text,
    ) by {
        compiling_keeps_meaning(g.not_gate@[i], c.not_gate@[i], text);
    }
    assert forall|i: int| 0 <= i < g.contains@.len() implies c.contains@[i]@ == small_text(
        (#[trigger] g.contains@[i])@,
    ) by {}
    assert forall|i: int| 0 <= i < g.regex@.len() implies regex_source(c.regex@[i]) == (
    #[trigger] g.regex@[i])@ by {}
    assert forall|i: int| 0 <= i < g.line_regex@.len() implies regex_source(c.line_regex@[i]) == (
    #[trigger] g.line_regex@[i])@ by {}
    if compiled_holds(c, text) {
        assert forall|i: int| 0 <= i < g.contains@.len() implies has_text(
            small_text(text),
            small_text((#[trigger] g.contains@[i])@),
        ) by {
            assert(has_text(small_text(text), c.contains@[i]@));
        }
        assert forall|i: int| 0 <= i < g.regex@.len() implies pattern_matches(
            (#[trigger] g.regex@[i])@,
            text,
        ) by {
            assert(pattern_matches(regex_source(c.regex@[i]), text));
        }
        assert forall|i: int| 0 <= i < g.line_regex@.len() implies matches_a_line(
            (#[trigger] g.line_regex@[i])@,
            text,
        ) by {
            assert(matches_a_line(regex_source(c.line_regex@[i]), text));
        }
        assert forall|i: int| 0 <= i < g.all@.len() implies gate_holds(
            #[trigger] g.all@[i],
            text,
        ) by {
            assert(compiled_holds(c.all@[i], text));
        }
        if g.any@.len() > 0 {
            let i = choose|i: int|
                0 <= i < c.any@.len() && compiled_holds(#[trigger] c.any@[i], text);
            assert(gate_holds(g.any@[i], text));
        }
        assert forall|i: int| 0 <= i < g.not_gate@.len() implies !gate_holds(
            #[trigger] g.not_gate@[i],
            text,
        ) by {
            assert(!compiled_holds(c.not_gate@[i], text));
        }
        assert(gate_holds(g, text));
    }
    if gate_holds(g, text) {
        assert forall|i: int| 0 <= i < c.contains@.len() implies has_text(
            small_text(text),
            (#[trigger] c.contains@[i])@,
        ) by {
            assert(has_text(small_text(text), small_text(g.contains@[i]@)));
        }
        assert forall|i: int| 0 <= i < c.regex@.len() implies pattern_matches(
            regex_source(#[trigger] c.regex@[i]),
            text,
        ) by {
            assert(pattern_matches(g.regex@[i]@, text));
        }
        assert forall|i: int| 0 <= i < c.line_regex@.len() implies matches_a_line(
            regex_source(#[trigger] c.line_regex@[i]),
            text,
        ) by {
            assert(matches_a_line(g.line_regex@[i]@, text));
        }
        assert forall|i: int| 0 <= i < c.all@.len() implies compiled_holds(
            #[trigger] c.all@[i],
            text,
        ) by {
            assert(gate_holds(g.all@[i], text));
        }
        if c.any@.len() > 0 {
            let i = choose|i: int|
                0 <= i < g.any@.len() && gate_holds(#[trigger] g.any@[i], text);
            assert(compiled_holds(c.any@[i], text));
        }
        assert forall|i: int| 0 <= i < c.not_gate@.len() implies !compiled_holds(
            #[trigger] c.not_gate@[i],
            text,
        ) by {
            assert(!gate_holds(g.not_gate@[i], text));
        }
        assert(compiled_holds(c, text));
    }
}

/// Whether all conditions hold, or whether one of them does.
fn gates_hold(gates: &Vec<CompiledGate>, text: &str, lower: &[char], every: bool) -> (r: bool)
    requires
        lower@ == small_text(text@),
    ensures
        every ==> r == (forall|i: int|
            0 <= i < gates@.len() ==> compiled_holds(#[trigger] gates@[i], text@)),
        !every ==> r == (exists|i: int|
            0 <= i < gates@.len() && compiled_holds(#[trigger] gates@[i], text@)),
    decreases *gates, 0int,
{
    let mut i: usize = 0;
    while i < gates.len()
        invariant
            i <= gates.len(),
            lower@ == small_text(text@),
            forall|k: int| 0 <= k < i ==> compiled_holds(#[trigger] gates@[k], text@) == every,
        decreases gates.len() - i,
    {
        assert(decreases_to!(*gates => gates@[i as int]));
        let holds = compiled_gate_matches(&gates[i], text, lower);
        assert(holds == compiled_holds(gates@[i as int], text@));
        if holds != every {
            return holds;
        }
        i += 1;
    }
    every
}

/// Whether the condition holds of a text, which `lower` has in small letters.
fn compiled_gate_matches(gate: &CompiledGate, text: &str, lower: &[char]) -> (r: bool)
    requires
        lower@ == small_text(text@),
    ensures
        r == compiled_holds(*gate, text@),
    decreases *gate, 1int,
{
    if !all_contained(&gate.contains, lower) {
        return false;
    }
    if !all_match(&gate.regex, text) {
        return false;
    }
    if !all_match_lines(&gate.line_regex, text) {
        return false;
    }
    if !gates_hold(&gate.all, text, lower, true) {
        return false;
    }
    if gate.any.len() > 0 && !gates_hold(&gate.any, text, lower, false) {
        return false;
    }
    if gates_hold(&gate.not_gate, text, lower, false) {
        return false;
    }
    true
}

/// Whether the condition of a rule holds of a text.
pub fn compiled_rule_matches(gate: &CompiledGate, text: &str) -> (r: bool)
    ensures
        r == compiled_holds(*gate, text@),
{
    let lower = to_lowercase(text);
    let lower = chars_of(lower.as_str());
    compiled_gate_matches(gate, text, lower.as_slice())
}

/// The text that a rule looks at; none where it would begin or end inside a character.
pub open spec fn rule_text(input: DetectionInput, name: Seq<char>) -> Option<Seq<char>> {
    match named_region(name) {
        Region::Title => Some(input.osc_title@),
        Region::Progress => Some(input.osc_progress@),
        region => region_text(region, input.screen@),
    }
}

/// The text that a rule looks at; none where it would begin or end inside a character.
pub fn region(input: &DetectionInput, name: &str) -> (r: Option<String>)
    ensures
        r matches Some(s) ==> rule_text(*input, name@) == Some(s@),
        r is None ==> rule_text(*input, name@) is None,
{
    match parse_region(name) {
        Region::Title => Some(input.osc_title.to_string()),
        Region::Progress => Some(input.osc_progress.to_string()),
        part => cut_region(part, input.screen),
    }
}

/// Every text that the rules look at can be cut out of the screen.
pub open spec fn texts_readable(rules: Seq<ManifestRule>, input: DetectionInput) -> bool {
    forall|i: int| 0 <= i < rules.len() ==> rule_text(input, (#[trigger] rules[i]).region@) is Some
}

/// Whether every text that the rules look at can be cut out of the screen. They can where
/// the screen has no carriage returns.
pub fn can_read_texts(loaded: &LoadedManifest, input: &DetectionInput) -> (r: bool)
    ensures
        r == texts_readable(loaded.rules(), *input),
{
    let mut i: usize = 0;
    while i < loaded.manifest.rules.len()
        invariant
            i <= loaded.manifest.rules.len(),
            forall|k: int|
                0 <= k < i ==> rule_text(
                    *input,
                    (#[trigger] loaded.manifest.rules@[k]).region@,
                ) is Some,
        decreases loaded.manifest.rules.len() - i,
    {
        if region(input, loaded.manifest.rules[i].region.as_str()).is_none() {
            assert(rule_text(*input, loaded.manifest.rules@[i as int].region@) is None);
            return false;
        }
        i += 1;
    }
    true
}

/// The rule matches.
pub open spec fn rule_matches(rule: ManifestRule, input: DetectionInput) -> bool {
    gate_holds(rule.gate, rule_text(input, rule.region@)->0)
}

/// The place of the rule that decides: of those that match, the first of the highest
/// priority.
pub open spec fn deciding_rule(rules: Seq<ManifestRule>, input: DetectionInput) -> Option<int>
    decreases rules.len(),
{
    if rules.len() == 0 {
        None
    } else {
        let before = deciding_rule(rules.drop_last(), input);
        if !rule_matches(rules.last(), input) {
            before
        } else {
            match before {
                Some(i) => if rules[i].priority >= rules.last().priority {
                    Some(i)
                } else {
                    Some(rules.len() - 1)
                },
                None => Some(rules.len() - 1),
            }
        }
    }
}

/// The deciding rule matches, none that matches has a higher priority, and none before it has
/// the same; where there is none, no rule matches.
pub proof fn deciding_rule_is_best(rules: Seq<ManifestRule>, input: DetectionInput)
    ensures
        deciding_rule(rules, input) matches Some(i) ==> 0 <= i < rules.len() && rule_matches(
            rules[i],
            input,
        ) && (forall|k: int|
            0 <= k < rules.len() && rule_matches(#[trigger] rules[k], input) ==> rules[k].priority
                <= rules[i].priority && (k < i ==> rules[k].priority < rules[i].priority)),
        deciding_rule(rules, input) is None ==> (forall|k: int|
            0 <= k < rules.len() ==> !rule_matches(#[trigger] rules[k], input)),
    decreases rules.len(),
{
    if rules.len() > 0 {
        let before = rules.drop_last();
        deciding_rule_is_best(before, input);
        assert forall|k: int| 0 <= k < before.len() implies before[k] == rules[k] by {}
        let last = rules.len() - 1;
        match deciding_rule(before, input) {
            Some(i) => {
                assert(rule_matches(before[i], input));
                assert forall|k: int|
                    0 <= k < rules.len() && rule_matches(#[trigger] rules[k], input) implies k
                    == last || (rules[k].priority <= rules[i].priority && (k < i
                    ==> rules[k].priority < rules[i].priority)) by {
                    if k < last {
                        assert(rule_matches(before[k], input));
                    }
                }
            },
            None => {
                assert forall|k: int| 0 <= k < last implies !rule_matches(
                    #[trigger] rules[k],
                    input,
                ) by {
                    assert(!rule_matches(before[k], input));
                }
            },
        }
    }
}

/// What is said where no rule matches.
pub open spec fn is_fallback(d: ManifestDetection) -> bool {
    &&& d.state == DetectedState::Idle
    &&& !d.skip_state_update
    &&& !d.visible_idle
    &&& !d.visible_blocker
    &&& !d.visible_working
    &&& d.matched_rule is None
    &&& d.fallback_reason matches Some(reason) && reason@
        == DEFAULT_KNOWN_AGENT_IDLE_FALLBACK@
}

/// What is said where the rule decides.
pub open spec fn says(rule: ManifestRule, d: ManifestDetection) -> bool {
    let state = match rule.state {
        Some(s) => s,
        None => DetectedState::Unknown,
    };
    &&& d.state == state
    &&& d.skip_state_update == rule.skip_state_update
    &&& d.visible_idle == (rule.visible_idle && state == DetectedState::Idle)
    &&& d.visible_blocker == (rule.visible_blocker && state == DetectedState::Blocked)
    &&& d.visible_working == (rule.visible_working && state == DetectedState::Working)
    &&& opt_text(d.matched_rule) == Some(rule.id@)
    &&& d.fallback_reason is None
}

fn fallback() -> (r: ManifestDetection)
    ensures
        is_fallback(r),
{
    ManifestDetection {
        state: DetectedState::Idle,
        skip_state_update: false,
        visible_idle: false,
        visible_blocker: false,
        visible_working: false,
        matched_rule: None,
        fallback_reason: Some(DEFAULT_KNOWN_AGENT_IDLE_FALLBACK),
    }
}

/// What the rules of an agent say of its screen; without rules, that it is idle.
pub fn detect_with_osc(loaded: Option<&LoadedManifest>, input: DetectionInput) -> (r:
    ManifestDetection)
    requires
        loaded matches Some(l) ==> texts_readable(l.rules(), input),
    ensures
        loaded is None ==> is_fallback(r),
        loaded matches Some(l) ==> match deciding_rule(l.rules(), input) {
            Some(i) => says(l.rules()[i], r),
            None => is_fallback(r),
        },
{
    let loaded = match loaded {
        Some(l) => l,
        None => {
            return fallback();
        },
    };
    let ghost rules = loaded.manifest.rules@;
    proof {
        use_type_invariant(loaded);
    }
    let mut matched: Option<usize> = None;
    let mut i: usize = 0;
    assert(rules.take(0).len() == 0);
    while i < loaded.manifest.rules.len()
        invariant
            i <= loaded.manifest.rules.len(),
            rules == loaded.manifest.rules@,
            loaded.wf(),
            texts_readable(rules, input),
            match matched {
                Some(m) => m < i && deciding_rule(rules.take(i as int), input) == Some(m as int),
                None => deciding_rule(rules.take(i as int), input) is None,
            },
        decreases loaded.manifest.rules.len() - i,
    {
        let rule = &loaded.manifest.rules[i];
        assert(rules.take(i + 1).drop_last() =~= rules.take(i as int));
        assert(rules.take(i + 1).last() == *rule);
        let part = region(&input, rule.region.as_str());
        assert(rule_text(input, rules[i as int].region@) is Some);
        let text = match part {
            Some(text) => text,
            None => String::new(),
        };
        let holds = compiled_rule_matches(&loaded.compiled_rules[i], text.as_str());
        proof {
            compiling_keeps_meaning(rule.gate, loaded.compiled_rules@[i as int], text@);
        }
        assert(holds == rule_matches(*rule, input));
        if holds {
            matched =
            match matched {
                Some(m) => if loaded.manifest.rules[m].priority >= rule.priority {
                    Some(m)
                } else {
                    Some(i)
                },
                None => Some(i),
            };
        }
        i += 1;
    }
    assert(rules.take(i as int) =~= rules);
    match matched {
        None => fallback(),
        Some(m) => {
            let rule = &loaded.manifest.rules[m];
            let state = match rule.state {
                Some(s) => s,
                None => DetectedState::Unknown,
            };
            ManifestDetection {
                state,
                skip_state_update: rule.skip_state_update,
                visible_idle: rule.visible_idle && state == DetectedState::Idle,
                visible_blocker: rule.visible_blocker && state == DetectedState::Blocked,
                visible_working: rule.visible_working && state == DetectedState::Working,
                matched_rule: Some(rule.id.clone()),
                fallback_reason: None,
            }
        },
    }
}

} // verus!
