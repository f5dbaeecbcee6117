//! Titles that tabs get from the agents in their panes.
use crate::daemon::live::{LlmTitleState, PaneRuntime};
use crate::model::AgentStatus;
use crate::shell::{shell_words_of, split_shell_words};
use crate::text::chars::{
    blank, chars_of, is_blank, is_opt_text, naming, opt_text, push_chars, texts, trim, trimmed,
};
use vstd::prelude::*;
use vstd::slice::slice_subrange;

verus! {

/// When tabs are named by a summarizer.
#[derive(Debug, Clone, Copy)]
pub struct TitleSettings {
    /// Ask a summarizer where an agent sets no title.
    pub llm_fallback: bool,
    /// How long to wait for a title, in milliseconds.
    pub llm_delay_ms: u64,
}

/// Seconds that the answer whether an agent runs in a pane is good for.
pub const AGENT_INSIDE_TTL_SECS: u64 = 5;

/// How many milliseconds a pane has run, as far as they can be counted.
pub open spec fn elapsed_ms(started_at: u64, now: u64) -> int {
    let secs = if now < started_at {
        0
    } else {
        now - started_at
    };
    if secs * 1000 > u64::MAX {
        u64::MAX as int
    } else {
        secs * 1000
    }
}

/// The summarizer is due: it has not been asked, it may be, the agent is on a task, and the
/// wait is over.
pub open spec fn summary_due(r: PaneRuntime, settings: TitleSettings, now: u64) -> bool {
    &&& r.llm_title_state == LlmTitleState::Pending
    &&& settings.llm_fallback
    &&& r.pane.agent_status == AgentStatus::Busy || r.pane.agent_status == AgentStatus::Attention
    &&& elapsed_ms(r.started_at, now) >= settings.llm_delay_ms
}

fn is_due(runtime: &PaneRuntime, settings: &TitleSettings, now: u64) -> (r: bool)
    ensures
        r == summary_due(*runtime, *settings, now),
{
    if runtime.llm_title_state != LlmTitleState::Pending || !settings.llm_fallback {
        return false;
    }
    if runtime.pane.agent_status != AgentStatus::Busy && runtime.pane.agent_status
        != AgentStatus::Attention {
        return false;
    }
    let secs = now.saturating_sub(runtime.started_at);
    let elapsed: u64 = match secs.checked_mul(1000) {
        Some(ms) => ms,
        None => u64::MAX,
    };
    elapsed >= settings.llm_delay_ms
}

/// Whether it matters to the title of the tab that an agent runs in the pane.
pub fn title_needs_agent(
    runtime: &PaneRuntime,
    condensed: &Option<String>,
    settings: &TitleSettings,
    now: u64,
) -> (r: bool)
    ensures
        r == (condensed is Some || summary_due(*runtime, *settings, now)),
{
    condensed.is_some() || is_due(runtime, settings, now)
}

/// What a title of the program does to the tab.
pub struct TitleUpdate {
    /// The title that the tab gets.
    pub title: Option<String>,
    /// The screen is to be summarized.
    pub summarize: bool,
}

/// Takes a window title in, as far as it comes down to one for a tab (`condensed`).
/// `runs_agent` says whether an agent runs in the pane, `screen` is what it shows.
pub fn agent_title_update(
    runtime: &mut PaneRuntime,
    condensed: Option<String>,
    runs_agent: bool,
    settings: &TitleSettings,
    screen: &str,
    now: u64,
) -> (r: TitleUpdate)
    ensures
        condensed is Some ==> !r.summarize && if runs_agent {
            &&& *final(runtime) == (PaneRuntime {
                llm_title_state: LlmTitleState::Done,
                auto_title: final(runtime).auto_title,
                ..*old(runtime)
            })
            &&& opt_text(final(runtime).auto_title) == opt_text(condensed)
            &&& opt_text(r.title) == if opt_text(old(runtime).auto_title) == opt_text(condensed) {
                None
            } else {
                opt_text(condensed)
            }
        } else {
            *final(runtime) == *old(runtime) && r.title is None
        },
        condensed is None ==> r.title is None && if summary_due(*old(runtime), *settings, now)
            && runs_agent {
            &&& *final(runtime) == (PaneRuntime {
                llm_title_state: LlmTitleState::Done,
                ..*old(runtime)
            })
            &&& r.summarize == !is_blank(screen@)
        } else {
            *final(runtime) == *old(runtime) && !r.summarize
        },
{
    match condensed {
        Some(title) => {
            if !runs_agent {
                return TitleUpdate { title: None, summarize: false };
            }
            runtime.llm_title_state = LlmTitleState::Done;
            if is_opt_text(&runtime.auto_title, title.as_str()) {
                return TitleUpdate { title: None, summarize: false };
            }
            runtime.auto_title = Some(title.clone());
            TitleUpdate { title: Some(title), summarize: false }
        },
        None => {
            if !is_due(runtime, settings, now) || !runs_agent {
                return TitleUpdate { title: None, summarize: false };
            }
            runtime.llm_title_state = LlmTitleState::Done;
            TitleUpdate { title: None, summarize: !blank(screen) }
        },
    }
}

/// Whether an agent runs in a pane, as far as it is known without looking: its command is
/// an agent's, it has no process, or it was looked at a moment ago.
pub open spec fn known_agent(r: PaneRuntime, is_agent_command: bool, now: u64) -> Option<bool> {
    if is_agent_command {
        Some(true)
    } else if r.pane.pid is None {
        Some(false)
    } else if r.agent_inside_at != 0 && (now < r.agent_inside_at || now - r.agent_inside_at
        < AGENT_INSIDE_TTL_SECS) {
        Some(r.agent_inside)
    } else {
        None
    }
}

/// Whether an agent runs in a pane, as far as it is known without looking.
pub fn pane_runs_agent(runtime: &PaneRuntime, is_agent_command: bool, now: u64) -> (r: Option<bool>)
    ensures
        r == known_agent(*runtime, is_agent_command, now),
{
    if is_agent_command {
        return Some(true);
    }
    if runtime.pane.pid.is_none() {
        return Some(false);
    }
    if now.saturating_sub(runtime.agent_inside_at) < AGENT_INSIDE_TTL_SECS
        && runtime.agent_inside_at != 0 {
        return Some(runtime.agent_inside);
    }
    None
}

/// Notes what a look at the processes of a pane found.
pub fn note_agent_inside(runtime: &mut PaneRuntime, found: bool, now: u64)
    ensures
        *final(runtime) == (PaneRuntime {
            agent_inside: found,
            agent_inside_at: now,
            ..*old(runtime)
        }),
        now > 0 ==> known_agent(*final(runtime), false, now) == Some(
            found && old(runtime).pane.pid is Some,
        ),
{
    runtime.agent_inside = found;
    runtime.agent_inside_at = now;
}

/// The characters of a screen that a summarizer is shown at most.
pub const LLM_TITLE_CONTEXT_CHARS: usize = 2000;

/// What a summarizer is told before it is shown the screen.
pub open spec fn summary_request() -> Seq<char> {
    "Below is the current screen of a coding agent working in a terminal.\nReply with a one or two word lowercase label naming the task it is working on — the kind of name you would give a tab. Reply with the words only: no punctuation, no quotes, no explanation.\n\nSCREEN:\n"@
}

/// What a summarizer is told: the request, and the end of the screen.
pub fn llm_tab_title_prompt(screen: &str) -> (r: String)
    ensures
        r@ == summary_request() + crate::text::chars::newest(
            trimmed(screen@),
            LLM_TITLE_CONTEXT_CHARS as int,
        ),
{
    let chars = chars_of(screen);
    let t = trim(chars.as_slice());
    let start: usize = if t.len() > LLM_TITLE_CONTEXT_CHARS {
        t.len() - LLM_TITLE_CONTEXT_CHARS
    } else {
        0
    };
    let context = slice_subrange(t, start, t.len());
    assert(context@ =~= crate::text::chars::newest(t@, LLM_TITLE_CONTEXT_CHARS as int));
    let mut out = "Below is the current screen of a coding agent working in a terminal.\nReply with a one or two word lowercase label naming the task it is working on — the kind of name you would give a tab. Reply with the words only: no punctuation, no quotes, no explanation.\n\nSCREEN:\n".to_string();
    push_chars(&mut out, context);
    out
}

/// Why no summarizer is asked.
#[derive(Debug)]
pub enum SummarizerError {
    /// The command that is set has a quote that is not closed.
    Invalid(String),
    /// No command is set.
    Empty,
}

impl SummarizerError {
    /// The reason in words.
    pub open spec fn words(self) -> Seq<char> {
        match self {
            SummarizerError::Invalid(command) => "invalid agent_titles.llm_command: "@ + command@,
            SummarizerError::Empty => "agent_titles.llm_command is empty"@,
        }
    }

    /// The reason in words.
    pub fn message(&self) -> (r: String)
        ensures
            r@ == self.words(),
    {
        match self {
            SummarizerError::Invalid(command) => {
                naming("invalid agent_titles.llm_command: ", command.as_str())
            },
            SummarizerError::Empty => "agent_titles.llm_command is empty".to_string(),
        }
    }
}

/// `r` is the program of the summarizer and its arguments, where `split` are the words of its
/// command.
pub open spec fn is_summarizer(
    command: Seq<char>,
    split: Option<Seq<Seq<char>>>,
    r: Result<Vec<String>, SummarizerError>,
) -> bool {
    match split {
        None => r matches Err(SummarizerError::Invalid(c)) && c@ == command,
        Some(words) => if words.len() == 0 {
            r matches Err(SummarizerError::Empty)
        } else {
            r matches Ok(argv) && texts(argv@) == words
        },
    }
}

/// The program of the summarizer and its arguments, from the words of its command.
pub fn summarizer_from(command: &str, split: Option<Vec<String>>) -> (r: Result<
    Vec<String>,
    SummarizerError,
>)
    ensures
        is_summarizer(
            command@,
            match split {
                Some(words) => Some(texts(words@)),
                None => None,
            },
            r,
        ),
{
    match split {
        None => Err(SummarizerError::Invalid(command.to_string())),
        Some(words) => {
            assert(texts(words@).len() == words@.len());
            if words.len() == 0 {
                Err(SummarizerError::Empty)
            } else {
                Ok(words)
            }
        },
    }
}

/// The program of the summarizer and its arguments.
pub fn summarizer_argv(command: &str) -> (r: Result<Vec<String>, SummarizerError>)
    ensures
        is_summarizer(command@, shell_words_of(command@), r),
{
    summarizer_from(command, split_shell_words(command))
}

} // verus!
