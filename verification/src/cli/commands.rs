//! Commands and the requests that they make.
use crate::model::{SplitDirection, SurfaceKind};
use crate::protocol::Request;
use crate::text::chars::{
    char_position, chars_of, find_char, is_blank, join_strings, joined, string_of, texts, trim,
};
use crate::text::pairs::{set_pair, with_pair};
use vstd::prelude::*;
use vstd::slice::slice_subrange;

verus! {

/// The limit that stands for no limit of one's own.
pub const DEFAULT_LIMIT_BYTES: usize = 16_000;

/// The limit to ask for; none where it is the one that holds anyway.
pub open spec fn asked_limit(limit_bytes: usize) -> Option<usize> {
    if limit_bytes == DEFAULT_LIMIT_BYTES {
        None
    } else {
        Some(limit_bytes)
    }
}

/// The limit to ask for; none where it is the one that holds anyway.
pub fn non_default_limit(limit_bytes: usize) -> (r: Option<usize>)
    ensures
        r == asked_limit(limit_bytes),
{
    if limit_bytes == DEFAULT_LIMIT_BYTES {
        None
    } else {
        Some(limit_bytes)
    }
}

/// The seconds that a wait takes at most where none are given.
pub const DEFAULT_WAIT_TIMEOUT_SECS: u64 = 300;

/// Milliseconds of so many seconds, as far as they can be counted.
pub open spec fn millis(secs: u64) -> u64 {
    if secs * 1000 <= u64::MAX {
        (secs * 1000) as u64
    } else {
        u64::MAX
    }
}

/// How long a wait takes at most: five minutes where nothing is said, for ever for zero.
pub open spec fn wait_limit(timeout: Option<u64>) -> Option<u64> {
    match timeout {
        None => Some(300_000),
        Some(secs) => if secs == 0 {
            None
        } else {
            Some(millis(secs))
        },
    }
}

/// How long a wait takes at most, in milliseconds.
pub fn wait_timeout_ms(timeout: Option<u64>) -> (r: Option<u64>)
    ensures
        r == wait_limit(timeout),
{
    match timeout {
        None => Some(DEFAULT_WAIT_TIMEOUT_SECS * 1000),
        Some(secs) => if secs == 0 {
            None
        } else {
            Some(if secs > u64::MAX / 1000 { u64::MAX } else { secs * 1000 })
        },
    }
}

/// What typed words send: the words with spaces between, and a return where it is asked for.
pub open spec fn typed(words: Seq<Seq<char>>, enter: bool) -> Seq<char> {
    if enter {
        joined(words, " "@).push('\r')
    } else {
        joined(words, " "@)
    }
}

/// What typed words send.
pub fn typed_text(words: &Vec<String>, enter: bool) -> (r: String)
    ensures
        r@ == typed(texts(words@), enter),
{
    let mut data = join_strings(words.as_slice(), " ");
    if enter {
        data.push('\r');
    }
    data
}

/// Commands on surfaces.
#[derive(Debug)]
#[allow(inconsistent_fields)]
pub enum SurfaceCommand {
    New {
        direction: SplitDirection,
        command: String,
        title: Option<String>,
        workspace: Option<String>,
    },
    Send { surface: Option<String>, enter: bool, text: Vec<String> },
    SendKey { surface: Option<String>, keys: Vec<String> },
    Read { surface: Option<String>, no_scrollback: bool, limit_bytes: usize },
    Kill { surface: Option<String> },
    Focus { surface: String },
    Duplicate { surface: Option<String>, direction: SplitDirection },
    Swap { first: String, second: String },
    List,
}

/// The request that a command on a surface makes.
pub fn surface_command(command: SurfaceCommand) -> (r: Request)
    ensures
        match command {
            SurfaceCommand::New { direction, command, title, workspace } => r == (Request::NewPane {
                direction,
                command,
                title,
                workspace,
                surface_kind: None,
            }),
            SurfaceCommand::Send { surface, enter, text } => r matches Request::Input { pane, data }
                && pane == surface && data@ == typed(texts(text@), enter),
            SurfaceCommand::SendKey { surface, keys } => r == (Request::SendKey {
                pane: surface,
                keys,
            }),
            SurfaceCommand::Read { surface, no_scrollback, limit_bytes } => r == (
            Request::ReadScreen {
                pane: surface,
                scrollback: !no_scrollback,
                limit_bytes: asked_limit(limit_bytes),
                ansi: false,
                history_lines: 0,
            }),
            SurfaceCommand::Kill { surface } => r == (Request::KillPane { pane: surface }),
            SurfaceCommand::Focus { surface } => r == (Request::FocusPane { pane: surface }),
            SurfaceCommand::Duplicate { surface, direction } => r == (Request::DuplicatePane {
                pane: surface,
                direction,
            }),
            SurfaceCommand::Swap { first, second } => r == (Request::SwapPanes { first, second }),
            SurfaceCommand::List => r == Request::List,
        },
{
    match command {
        SurfaceCommand::New { direction, command, title, workspace } => Request::NewPane {
            direction,
            command,
            title,
            workspace,
            surface_kind: None,
        },
        SurfaceCommand::Send { surface, enter, text } => Request::Input {
            pane: surface,
            data: typed_text(&text, enter),
        },
        SurfaceCommand::SendKey { surface, keys } => Request::SendKey { pane: surface, keys },
        SurfaceCommand::Read { surface, no_scrollback, limit_bytes } => Request::ReadScreen {
            pane: surface,
            scrollback: !no_scrollback,
            limit_bytes: non_default_limit(limit_bytes),
            ansi: false,
            history_lines: 0,
        },
        SurfaceCommand::Kill { surface } => Request::KillPane { pane: surface },
        SurfaceCommand::Focus { surface } => Request::FocusPane { pane: surface },
        SurfaceCommand::Duplicate { surface, direction } => Request::DuplicatePane {
            pane: surface,
            direction,
        },
        SurfaceCommand::Swap { first, second } => Request::SwapPanes { first, second },
        SurfaceCommand::List => Request::List,
    }
}

/// Commands on agents.
#[derive(Debug)]
pub enum AgentCommand {
    New {
        direction: SplitDirection,
        command: String,
        title: Option<String>,
        workspace: Option<String>,
    },
    Team {
        agents: Vec<String>,
        cwd: Option<String>,
        direction: SplitDirection,
        no_agents_md: bool,
    },
    List,
    Send { agent: Option<String>, enter: bool, text: Vec<String> },
    Read { agent: Option<String>, no_scrollback: bool, limit_bytes: usize },
    Notify {
        agent: Option<String>,
        status: Option<String>,
        color: Option<String>,
        message: String,
    },
}

/// What a command on agents asks for.
#[derive(Debug)]
pub enum AgentPlan {
    Ask(Request),
    /// A workspace for each agent, and a note for all of them where it is asked for.
    Team {
        agents: Vec<String>,
        cwd: Option<String>,
        direction: SplitDirection,
        write_agents_md: bool,
    },
}

/// What a command on agents asks for.
pub fn agent_command(command: AgentCommand) -> (r: AgentPlan)
    ensures
        match command {
            AgentCommand::New { direction, command, title, workspace } => r == AgentPlan::Ask(
                Request::NewPane {
                    direction,
                    command,
                    title,
                    workspace,
                    surface_kind: Some(SurfaceKind::Agent),
                },
            ),
            AgentCommand::Team { agents, cwd, direction, no_agents_md } => r == (AgentPlan::Team {
                agents,
                cwd,
                direction,
                write_agents_md: !no_agents_md,
            }),
            AgentCommand::List => r == AgentPlan::Ask(Request::Agents),
            AgentCommand::Send { agent, enter, text } => r matches AgentPlan::Ask(
                Request::Input { pane, data },
            ) && pane == agent && data@ == typed(texts(text@), enter),
            AgentCommand::Read { agent, no_scrollback, limit_bytes } => r == AgentPlan::Ask(
                Request::ReadScreen {
                    pane: agent,
                    scrollback: !no_scrollback,
                    limit_bytes: asked_limit(limit_bytes),
                    ansi: false,
                    history_lines: 0,
                },
            ),
            AgentCommand::Notify { agent, status, color, message } => r == AgentPlan::Ask(
                Request::Notify {
                    pane: agent,
                    workspace: None,
                    status,
                    color,
                    clear: false,
                    message,
                    title: None,
                },
            ),
        },
{
    match command {
        AgentCommand::New { direction, command, title, workspace } => AgentPlan::Ask(
            Request::NewPane {
                direction,
                command,
                title,
                workspace,
                surface_kind: Some(SurfaceKind::Agent),
            },
        ),
        AgentCommand::Team { agents, cwd, direction, no_agents_md } => AgentPlan::Team {
            agents,
            cwd,
            direction,
            write_agents_md: !no_agents_md,
        },
        AgentCommand::List => AgentPlan::Ask(Request::Agents),
        AgentCommand::Send { agent, enter, text } => AgentPlan::Ask(
            Request::Input { pane: agent, data: typed_text(&text, enter) },
        ),
        AgentCommand::Read { agent, no_scrollback, limit_bytes } => AgentPlan::Ask(
            Request::ReadScreen {
                pane: agent,
                scrollback: !no_scrollback,
                limit_bytes: non_default_limit(limit_bytes),
                ansi: false,
                history_lines: 0,
            },
        ),
        AgentCommand::Notify { agent, status, color, message } => AgentPlan::Ask(
            Request::Notify {
                pane: agent,
                workspace: None,
                status,
                color,
                clear: false,
                message,
                title: None,
            },
        ),
    }
}

/// Why a field of a form is not understood.
#[derive(Debug)]
pub enum FieldError {
    /// It has no equals sign.
    NoValue(String),
    /// It has no name.
    NoName,
}

/// The name and the value that a field argument gives.
pub open spec fn field_pair(field: Seq<char>) -> Option<(Seq<char>, Seq<char>)> {
    match char_position(field, '=') {
        Some(i) => Some((field.take(i), field.skip(i + 1))),
        None => None,
    }
}

/// What is wrong with a field argument.
pub open spec fn is_field_error(field: Seq<char>, e: FieldError) -> bool {
    match field_pair(field) {
        None => e matches FieldError::NoValue(got) && got@ == field,
        Some((name, value)) => is_blank(name) && e is NoName,
    }
}

/// The field argument gives a name and a value.
pub open spec fn is_field(field: Seq<char>) -> bool {
    match field_pair(field) {
        Some((name, value)) => !is_blank(name),
        None => false,
    }
}

/// `pairs` are the names and values of the fields, by name; a later one takes the place of
/// an earlier one with its name.
pub open spec fn field_pairs(fields: Seq<String>, pairs: Seq<(String, String)>) -> bool
    decreases fields.len(),
{
    if fields.len() == 0 {
        pairs.len() == 0
    } else {
        exists|before: Seq<(String, String)>, pair: (String, String)|
            field_pairs(fields.drop_last(), before) && field_pair(fields.last()@) == Some(
                (pair.0@, pair.1@),
            ) && pairs == #[trigger] with_pair(before, pair)
    }
}

/// The place of the first field argument that is none.
pub open spec fn first_bad_field(fields: Seq<String>) -> Option<int>
    decreases fields.len(),
{
    if fields.len() == 0 {
        None
    } else {
        match first_bad_field(fields.drop_last()) {
            Some(i) => Some(i),
            None => if is_field(fields.last()@) {
                None
            } else {
                Some(fields.len() - 1)
            },
        }
    }
}

/// What is first bad among the first fields is first bad among all.
proof fn bad_field_stays_first(fields: Seq<String>, n: int)
    requires
        0 <= n <= fields.len(),
        first_bad_field(fields.take(n)) is Some,
    ensures
        first_bad_field(fields) == first_bad_field(fields.take(n)),
    decreases fields.len(),
{
    if n < fields.len() {
        assert(fields.drop_last().take(n) =~= fields.take(n));
        bad_field_stays_first(fields.drop_last(), n);
    } else {
        assert(fields.take(n) =~= fields);
    }
}

/// Reads field arguments of the form `name=value`.
pub fn parse_field_args(fields: &Vec<String>) -> (r: Result<Vec<(String, String)>, FieldError>)
    ensures
        match first_bad_field(fields@) {
            Some(i) => r matches Err(e) && is_field_error(fields@[i]@, e),
            None => r matches Ok(pairs) && field_pairs(fields@, pairs@),
        },
        r matches Ok(pairs) ==> pairs@.len() <= fields@.len(),
{
    let mut out: Vec<(String, String)> = Vec::new();
    let mut i: usize = 0;
    assert(fields@.take(0).len() == 0);
    while i < fields.len()
        invariant
            i <= fields.len(),
            out@.len() <= i,
            first_bad_field(fields@.take(i as int)) is None,
            field_pairs(fields@.take(i as int), out@),
        decreases fields.len() - i,
    {
        let ghost so_far = fields@.take(i + 1);
        assert(so_far.drop_last() =~= fields@.take(i as int));
        assert(so_far.last() == fields@[i as int]);
        let chars = chars_of(fields[i].as_str());
        let at = match find_char(chars.as_slice(), '=') {
            Some(at) => at,
            None => {
                proof {
                    bad_field_stays_first(fields@, i + 1);
                }
                return Err(FieldError::NoValue(fields[i].clone()));
            },
        };
        let name = slice_subrange(chars.as_slice(), 0, at);
        let value = slice_subrange(chars.as_slice(), at + 1, chars.len());
        assert(name@ =~= chars@.take(at as int));
        assert(value@ =~= chars@.skip(at + 1));
        if trim(name).len() == 0 {
            proof {
                bad_field_stays_first(fields@, i + 1);
            }
            return Err(FieldError::NoName);
        }
        let ghost before = out@;
        let name = string_of(name);
        let value = string_of(value);
        proof {
            crate::text::pairs::with_pair_len(before, (name, value));
        }
        set_pair(&mut out, name, value);
        assert(out@ == with_pair(before, (name, value)));
        assert(field_pairs(so_far, out@));
        i += 1;
    }
    assert(fields@.take(i as int) =~= fields@);
    Ok(out)
}

/// Commands on pages.
#[derive(Debug)]
pub enum BrowserCommand {
    Open {
        url: String,
        direction: SplitDirection,
        title: Option<String>,
        workspace: Option<String>,
    },
    Snapshot { url: String },
    Screenshot { url: String },
    Links { url: String },
    Forms { url: String },
    Evaluate { url: String, expression: String },
    Console { url: String },
    Network { url: String },
    OpenLink {
        url: String,
        index: usize,
        direction: SplitDirection,
        title: Option<String>,
        workspace: Option<String>,
    },
    Click {
        url: String,
        index: usize,
        direction: SplitDirection,
        title: Option<String>,
        workspace: Option<String>,
    },
    Submit {
        url: String,
        index: usize,
        fields: Vec<String>,
        direction: SplitDirection,
        title: Option<String>,
        workspace: Option<String>,
    },
    Fill {
        url: String,
        index: usize,
        fields: Vec<String>,
        direction: SplitDirection,
        title: Option<String>,
        workspace: Option<String>,
    },
    Type {
        url: String,
        index: usize,
        fields: Vec<String>,
        direction: SplitDirection,
        title: Option<String>,
        workspace: Option<String>,
    },
}

/// `r` sends the form with the fields, or says which of them is none.
pub open spec fn asks_to_submit(
    r: Result<Request, FieldError>,
    url: String,
    index: usize,
    fields: Seq<String>,
    direction: SplitDirection,
    title: Option<String>,
    workspace: Option<String>,
) -> bool {
    match first_bad_field(fields) {
        Some(i) => r matches Err(e) && is_field_error(fields[i]@, e),
        None => r matches Ok(Request::SubmitForm { url: u, index: n, fields: f, direction: d, title:
            t, workspace: w }) && u == url && n == index && d == direction && t == title && w
            == workspace && field_pairs(fields, f@),
    }
}

/// The request that a command on a page makes.
pub fn browser_request(command: BrowserCommand) -> (r: Result<Request, FieldError>)
    ensures
        match command {
            BrowserCommand::Open { url, direction, title, workspace } => r == Ok::<
                Request,
                FieldError,
            >(Request::OpenUrl { url, direction, title, workspace }),
            BrowserCommand::Snapshot { url } | BrowserCommand::Screenshot { url } => r == Ok::<
                Request,
                FieldError,
            >(Request::UrlSnapshot { url }),
            BrowserCommand::Links { url } => r == Ok::<Request, FieldError>(
                Request::UrlLinks { url },
            ),
            BrowserCommand::Forms { url } => r == Ok::<Request, FieldError>(
                Request::UrlForms { url },
            ),
            BrowserCommand::Evaluate { url, expression } => r == Ok::<Request, FieldError>(
                Request::UrlEvaluate { url, expression },
            ),
            BrowserCommand::Console { url } => r == Ok::<Request, FieldError>(
                Request::UrlConsole { url },
            ),
            BrowserCommand::Network { url } => r == Ok::<Request, FieldError>(
                Request::UrlNetwork { url },
            ),
            BrowserCommand::OpenLink { url, index, direction, title, workspace }
            | BrowserCommand::Click { url, index, direction, title, workspace } => r == Ok::<
                Request,
                FieldError,
            >(Request::OpenUrlLink { url, index, direction, title, workspace }),
            BrowserCommand::Submit { url, index, fields, direction, title, workspace }
            | BrowserCommand::Fill { url, index, fields, direction, title, workspace }
            | BrowserCommand::Type { url, index, fields, direction, title, workspace } =>
            asks_to_submit(r, url, index, fields@, direction, title, workspace),
        },
{
    let request = match command {
        BrowserCommand::Open { url, direction, title, workspace } => Request::OpenUrl {
            url,
            direction,
            title,
            workspace,
        },
        BrowserCommand::Snapshot { url } | BrowserCommand::Screenshot { url } => {
            Request::UrlSnapshot { url }
        },
        BrowserCommand::Links { url } => Request::UrlLinks { url },
        BrowserCommand::Forms { url } => Request::UrlForms { url },
        BrowserCommand::Evaluate { url, expression } => Request::UrlEvaluate { url, expression },
        BrowserCommand::Console { url } => Request::UrlConsole { url },
        BrowserCommand::Network { url } => Request::UrlNetwork { url },
        BrowserCommand::OpenLink { url, index, direction, title, workspace }
        | BrowserCommand::Click { url, index, direction, title, workspace } => Request::OpenUrlLink {
            url,
            index,
            direction,
            title,
            workspace,
        },
        BrowserCommand::Submit { url, index, fields, direction, title, workspace }
        | BrowserCommand::Fill { url, index, fields, direction, title, workspace }
        | BrowserCommand::Type { url, index, fields, direction, title, workspace } => {
            match parse_field_args(&fields) {
                Ok(fields) => Request::SubmitForm {
                    url,
                    index,
                    fields,
                    direction,
                    title,
                    workspace,
                },
                Err(e) => {
                    return Err(e);
                },
            }
        },
    };
    Ok(request)
}

/// Commands on tabs.
#[derive(Debug)]
#[allow(inconsistent_fields)]
pub enum TabCommand {
    List { workspace: Option<String> },
    New { workspace: Option<String>, title: Option<String>, command: Option<String> },
    Switch { workspace: Option<String>, tab: String },
    Rename { workspace: Option<String>, tab: String, title: String },
    Close { workspace: Option<String>, tab: String },
    Next { workspace: Option<String> },
    Previous { workspace: Option<String> },
}

/// What a command on tabs asks for.
#[derive(Debug)]
pub enum TabPlan {
    Ask(Request),
    /// Go to the next tab, or to the one before.
    Relative { workspace: Option<String>, going_next: bool },
}

/// What a command on tabs asks for.
pub fn tab_command(command: TabCommand) -> (r: TabPlan)
    ensures
        r == match command {
            TabCommand::List { workspace } => TabPlan::Ask(Request::ListTabs { workspace }),
            TabCommand::New { workspace, title, command } => TabPlan::Ask(
                Request::NewTab { workspace, title, command },
            ),
            TabCommand::Switch { workspace, tab } => TabPlan::Ask(
                Request::SwitchTab { workspace, tab },
            ),
            TabCommand::Rename { workspace, tab, title } => TabPlan::Ask(
                Request::RenameTab { workspace, tab, title },
            ),
            TabCommand::Close { workspace, tab } => TabPlan::Ask(
                Request::CloseTab { workspace, tab },
            ),
            TabCommand::Next { workspace } => TabPlan::Relative { workspace, going_next: true },
            TabCommand::Previous { workspace } => TabPlan::Relative {
                workspace,
                going_next: false,
            },
        },
{
    match command {
        TabCommand::List { workspace } => TabPlan::Ask(Request::ListTabs { workspace }),
        TabCommand::New { workspace, title, command } => TabPlan::Ask(
            Request::NewTab { workspace, title, command },
        ),
        TabCommand::Switch { workspace, tab } => TabPlan::Ask(Request::SwitchTab { workspace, tab }),
        TabCommand::Rename { workspace, tab, title } => TabPlan::Ask(
            Request::RenameTab { workspace, tab, title },
        ),
        TabCommand::Close { workspace, tab } => TabPlan::Ask(Request::CloseTab { workspace, tab }),
        TabCommand::Next { workspace } => TabPlan::Relative { workspace, going_next: true },
        TabCommand::Previous { workspace } => TabPlan::Relative { workspace, going_next: false },
    }
}

/// Commands on the metadata of panes.
#[derive(Debug)]
pub enum MetadataCommand {
    List { pane: Option<String> },
    Put { key: String, value: String, pane: Option<String> },
    Clear { key: String, pane: Option<String> },
}

/// The request that a command on metadata makes, and whether only the metadata of the
/// answer is shown.
pub fn metadata_command(command: MetadataCommand) -> (r: (Request, bool))
    ensures
        r == match command {
            MetadataCommand::List { pane } => (Request::Identify { pane }, true),
            MetadataCommand::Put { key, value, pane } => (
                Request::SetPaneMetadata { pane, key, value: Some(value) },
                false,
            ),
            MetadataCommand::Clear { key, pane } => (
                Request::SetPaneMetadata { pane, key, value: None },
                false,
            ),
        },
{
    match command {
        MetadataCommand::List { pane } => (Request::Identify { pane }, true),
        MetadataCommand::Put { key, value, pane } => (
            Request::SetPaneMetadata { pane, key, value: Some(value) },
            false,
        ),
        MetadataCommand::Clear { key, pane } => (
            Request::SetPaneMetadata { pane, key, value: None },
            false,
        ),
    }
}

/// The kind of a surface, as it is written on the command line.
#[derive(Debug, Clone, Copy, PartialEq, Eq, Structural)]
pub enum SurfaceKindArg {
    Terminal,
    Browser,
    Agent,
    Markdown,
}

/// The kind of a surface.
pub fn surface_kind_arg(kind: SurfaceKindArg) -> (r: SurfaceKind)
    ensures
        r == match kind {
            SurfaceKindArg::Terminal => SurfaceKind::Terminal,
            SurfaceKindArg::Browser => SurfaceKind::Browser,
            SurfaceKindArg::Agent => SurfaceKind::Agent,
            SurfaceKindArg::Markdown => SurfaceKind::Markdown,
        },
{
    match kind {
        SurfaceKindArg::Terminal => SurfaceKind::Terminal,
        SurfaceKindArg::Browser => SurfaceKind::Browser,
        SurfaceKindArg::Agent => SurfaceKind::Agent,
        SurfaceKindArg::Markdown => SurfaceKind::Markdown,
    }
}

/// Why no viewer's size is asked for.
#[derive(Debug, Clone, Copy, PartialEq, Eq, Structural)]
pub enum ViewSizeError {
    NoPane,
    NoSize,
}

/// The request to hold a pane to a size, or to let it go.
pub fn view_size_request(
    pane: Option<String>,
    cols: Option<u16>,
    rows: Option<u16>,
    lease_ms: u64,
    clear: bool,
) -> (r: Result<Request, ViewSizeError>)
    ensures
        r == match pane {
            None => Err::<Request, ViewSizeError>(ViewSizeError::NoPane),
            Some(pane) => if clear {
                Ok(Request::ClearPaneViewSize { pane })
            } else {
                match (cols, rows) {
                    (Some(cols), Some(rows)) => Ok(
                        Request::SetPaneViewSize { pane, cols, rows, lease_ms },
                    ),
                    _ => Err(ViewSizeError::NoSize),
                }
            },
        },
{
    match pane {
        None => Err(ViewSizeError::NoPane),
        Some(pane) => if clear {
            Ok(Request::ClearPaneViewSize { pane })
        } else {
            match (cols, rows) {
                (Some(cols), Some(rows)) => Ok(
                    Request::SetPaneViewSize { pane, cols, rows, lease_ms },
                ),
                _ => Err(ViewSizeError::NoSize),
            }
        },
    }
}

} // verus!
