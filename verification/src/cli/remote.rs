//! Commands that panes run: remote shells and viewers of Markdown.
use super::hooks::{json_text_field, workspace_id_from_value};
use crate::daemon::panes::{listed, lists};
use crate::model::{SplitDirection, SurfaceKind};
use crate::protocol::Request;
use crate::shell::{join_shell_words, shell_joined, shell_words_of};
use crate::text::chars::{
    alnum, begins, blank, chars_of, is_alnum, is_blank, last_char_position, opt_str, opt_text,
    push_chars, rfind_char, starts_with, texts,
};
use vstd::prelude::*;
use vstd::slice::slice_subrange;

verus! {

/// A character that a shell takes as it is.
pub open spec fn is_plain(c: char) -> bool {
    is_alnum(c) || c == '_' || c == '-' || c == '.' || c == '/' || c == ':' || c == '@'
}

/// Every character is one that a shell takes as it is.
pub open spec fn all_plain(s: Seq<char>) -> bool {
    forall|i: int| 0 <= i < s.len() ==> is_plain(#[trigger] s[i])
}

/// The text for between single quotes: each single quote closes them, stands behind a
/// backslash, and opens them again.
pub open spec fn escaped(s: Seq<char>) -> Seq<char>
    decreases s.len(),
{
    if s.len() == 0 {
        Seq::empty()
    } else if s.last() == '\'' {
        escaped(s.drop_last()) + seq!['\'', '\\', '\'', '\'']
    } else {
        escaped(s.drop_last()).push(s.last())
    }
}

/// The text for a command line: as it is, or between single quotes.
pub open spec fn quoted(s: Seq<char>) -> Seq<char> {
    if all_plain(s) {
        s
    } else {
        seq!['\''] + escaped(s) + seq!['\'']
    }
}

/// Whether a shell takes the text as it is.
fn plain(s: &[char]) -> (r: bool)
    ensures
        r == all_plain(s@),
{
    let mut i: usize = 0;
    while i < s.len()
        invariant
            i <= s.len(),
            forall|j: int| 0 <= j < i ==> is_plain(#[trigger] s@[j]),
        decreases s.len() - i,
    {
        let c = s[i];
        if !(alnum(c) || c == '_' || c == '-' || c == '.' || c == '/' || c == ':' || c == '@') {
            assert(!is_plain(s@[i as int]));
            return false;
        }
        i += 1;
    }
    true
}

/// The text for a command line.
pub fn shell_quote(value: &str) -> (r: String)
    ensures
        r@ == quoted(value@),
{
    let chars = chars_of(value);
    if plain(chars.as_slice()) {
        return value.to_string();
    }
    let mut out = String::new();
    out.push('\'');
    let mut i: usize = 0;
    assert(chars@.take(0) =~= Seq::empty());
    assert(out@ =~= seq!['\''] + escaped(chars@.take(0)));
    while i < chars.len()
        invariant
            i <= chars.len(),
            chars@ == value@,
            !all_plain(chars@),
            out@ == seq!['\''] + escaped(chars@.take(i as int)),
        decreases chars.len() - i,
    {
        assert(chars@.take(i + 1).drop_last() =~= chars@.take(i as int));
        if chars[i] == '\'' {
            out.push('\'');
            out.push('\\');
            out.push('\'');
            out.push('\'');
        } else {
            out.push(chars[i]);
        }
        assert(out@ =~= seq!['\''] + escaped(chars@.take(i + 1)));
        i += 1;
    }
    assert(chars@.take(i as int) =~= chars@);
    out.push('\'');
    assert(out@ =~= quoted(value@));
    out
}

/// Where a shell stands in a word.
pub enum WordState {
    Bare,
    Quoted,
    /// Behind a backslash.
    Escaped,
}

/// What a shell has of a word once it has read `s`, and where it stands; none where it would
/// not take `s` for part of one word.
pub open spec fn read_word(s: Seq<char>) -> Option<(Seq<char>, WordState)>
    decreases s.len(),
{
    if s.len() == 0 {
        Some((Seq::empty(), WordState::Bare))
    } else {
        match read_word(s.drop_last()) {
            None => None,
            Some((word, state)) => {
                let c = s.last();
                match state {
                    WordState::Quoted => if c == '\'' {
                        Some((word, WordState::Bare))
                    } else {
                        Some((word.push(c), WordState::Quoted))
                    },
                    WordState::Escaped => Some((word.push(c), WordState::Bare)),
                    WordState::Bare => if c == '\'' {
                        Some((word, WordState::Quoted))
                    } else if c == '\\' {
                        Some((word, WordState::Escaped))
                    } else if is_plain(c) {
                        Some((word.push(c), WordState::Bare))
                    } else {
                        None
                    },
                }
            },
        }
    }
}

/// Read up to where a text ends, quotes are still open and all of it is there.
proof fn reads_escaped(s: Seq<char>)
    ensures
        read_word(seq!['\''] + escaped(s)) == Some((s, WordState::Quoted)),
    decreases s.len(),
{
    let start = seq!['\''];
    if s.len() == 0 {
        assert(start + escaped(s) =~= start);
        assert(start.drop_last() =~= Seq::empty());
        reveal_with_fuel(read_word, 2);
        assert(s =~= Seq::empty());
    } else {
        let t = s.drop_last();
        reads_escaped(t);
        let a = start + escaped(t);
        if s.last() == '\'' {
            let a1 = a.push('\'');
            let a2 = a1.push('\\');
            let a3 = a2.push('\'');
            let a4 = a3.push('\'');
            assert(start + escaped(s) =~= a4);
            assert(a1.drop_last() =~= a && a2.drop_last() =~= a1 && a3.drop_last() =~= a2
                && a4.drop_last() =~= a3);
            assert(read_word(a1) == Some((t, WordState::Bare)));
            assert(read_word(a2) == Some((t, WordState::Escaped)));
            assert(read_word(a3) == Some((t.push('\''), WordState::Bare)));
            assert(t.push('\'') =~= s);
        } else {
            assert(start + escaped(s) =~= a.push(s.last()));
            assert(a.push(s.last()).drop_last() =~= a);
            assert(t.push(s.last()) =~= s);
        }
    }
}

/// Plain characters are read as they are.
proof fn reads_plain(s: Seq<char>)
    requires
        all_plain(s),
    ensures
        read_word(s) == Some((s, WordState::Bare)),
    decreases s.len(),
{
    if s.len() > 0 {
        reads_plain(s.drop_last());
        assert(s.drop_last().push(s.last()) =~= s);
    } else {
        assert(s =~= Seq::empty());
    }
}

/// A shell that reads a quoted text as one word has that text: nothing in it ends the word or
/// means anything else.
pub proof fn quoted_reads_back(s: Seq<char>)
    ensures
        read_word(quoted(s)) == Some((s, WordState::Bare)),
{
    if all_plain(s) {
        reads_plain(s);
    } else {
        reads_escaped(s);
        let a = seq!['\''] + escaped(s);
        assert((a + seq!['\'']).drop_last() =~= a);
    }
}

/// The command that reaches a host, and runs a command there where one is given. The host
/// stands behind two hyphens, so that it is no option.
pub open spec fn ssh_line(host: Seq<char>, command: Option<Seq<char>>) -> Seq<char> {
    let line = "ssh -- "@ + quoted(host);
    match command {
        Some(command) => if is_blank(command) {
            line
        } else {
            line + " "@ + quoted(command)
        },
        None => line,
    }
}

/// The command that reaches a host.
pub fn ssh_command(host: &str, remote_command: Option<&str>) -> (r: String)
    ensures
        r@ == ssh_line(host@, opt_str(remote_command)),
{
    let mut out = "ssh -- ".to_string();
    out.append(shell_quote(host).as_str());
    if let Some(command) = remote_command {
        if !blank(command) {
            out.append(" ");
            out.append(shell_quote(command).as_str());
        }
    }
    out
}

/// The command that attaches to a session of tmux on a host.
pub open spec fn tmux_line(host: Seq<char>, session: Seq<char>) -> Seq<char> {
    "ssh -- "@ + quoted(host) + " -t tmux attach -t "@ + quoted(session)
}

/// The command that attaches to a session of tmux on a host.
pub fn remote_tmux_command(host: &str, session: &str) -> (r: String)
    ensures
        r@ == tmux_line(host@, session@),
{
    let mut out = "ssh -- ".to_string();
    out.append(shell_quote(host).as_str());
    out.append(" -t tmux attach -t ");
    out.append(shell_quote(session).as_str());
    out
}

/// A workspace that is to be made, with its first pane.
#[derive(Debug)]
pub struct WorkspacePlan {
    pub name: String,
    pub cwd: Option<String>,
    pub command: String,
    pub title: Option<String>,
    pub direction: SplitDirection,
    pub surface_kind: Option<SurfaceKind>,
}

/// Commands for other hosts.
#[derive(Debug)]
pub enum RemoteCommand {
    Ssh {
        host: String,
        workspace: Option<String>,
        command: Option<String>,
        title: Option<String>,
        direction: SplitDirection,
    },
    Tmux {
        host: String,
        session: String,
        workspace: Option<String>,
        title: Option<String>,
        direction: SplitDirection,
    },
}

/// What is given, or else `other`.
pub open spec fn or_text(value: Option<String>, other: Seq<char>) -> Seq<char> {
    match value {
        Some(text) => text@,
        None => other,
    }
}

/// `plan` makes a terminal with the command, under the label where no names are given.
pub open spec fn plans_terminal(
    plan: WorkspacePlan,
    workspace: Option<String>,
    title: Option<String>,
    label: Seq<char>,
    command: Seq<char>,
    direction: SplitDirection,
) -> bool {
    &&& plan.name@ == or_text(workspace, label)
    &&& opt_text(plan.title) == Some(or_text(title, label))
    &&& plan.command@ == command
    &&& plan.cwd is None
    &&& plan.direction == direction
    &&& plan.surface_kind == Some(SurfaceKind::Terminal)
}

/// The workspace that a command for another host makes.
pub fn remote_command(command: RemoteCommand) -> (r: WorkspacePlan)
    ensures
        match command {
            RemoteCommand::Ssh { host, workspace, command, title, direction } => plans_terminal(
                r,
                workspace,
                title,
                "ssh:"@ + host@,
                ssh_line(host@, opt_text(command)),
                direction,
            ),
            RemoteCommand::Tmux { host, session, workspace, title, direction } => plans_terminal(
                r,
                workspace,
                title,
                "tmux:"@ + host@ + ":"@ + session@,
                tmux_line(host@, session@),
                direction,
            ),
        },
{
    let (line, label, workspace, title, direction) = match command {
        RemoteCommand::Ssh { host, workspace, command, title, direction } => {
            let mut label = "ssh:".to_string();
            label.append(host.as_str());
            let line = match &command {
                Some(command) => ssh_command(host.as_str(), Some(command.as_str())),
                None => ssh_command(host.as_str(), None),
            };
            (line, label, workspace, title, direction)
        },
        RemoteCommand::Tmux { host, session, workspace, title, direction } => {
            let mut label = "tmux:".to_string();
            label.append(host.as_str());
            label.append(":");
            label.append(session.as_str());
            let line = remote_tmux_command(host.as_str(), session.as_str());
            (line, label, workspace, title, direction)
        },
    };
    let name = match workspace {
        Some(name) => name,
        None => label.clone(),
    };
    let title = match title {
        Some(title) => title,
        None => label,
    };
    WorkspacePlan {
        name,
        cwd: None,
        command: line,
        title: Some(title),
        direction,
        surface_kind: Some(SurfaceKind::Terminal),
    }
}

/// An answer of the daemon; its data are a JSON text.
#[derive(Debug)]
pub struct Reply {
    pub ok: bool,
    pub error: Option<String>,
    pub data: Option<String>,
}

/// Why an answer does not do.
#[derive(Debug)]
pub enum ReplyError {
    /// The daemon refused, with these words where it had any.
    Refused(Option<String>),
    NoData,
    NoId,
}

/// `r` is the id that the answer gives, or why it gives none.
pub open spec fn replied_id(reply: Reply, r: Result<String, ReplyError>) -> bool {
    if !reply.ok {
        r == Err::<String, ReplyError>(ReplyError::Refused(reply.error))
    } else {
        match reply.data {
            None => r matches Err(ReplyError::NoData),
            Some(data) => match json_text_field(data@, "id"@) {
                None => r matches Err(ReplyError::NoId),
                Some(id) => r matches Ok(got) && got@ == id,
            },
        }
    }
}

/// The id that an answer gives.
pub fn reply_id(reply: Reply) -> (r: Result<String, ReplyError>)
    ensures
        replied_id(reply, r),
{
    if !reply.ok {
        return Err(ReplyError::Refused(reply.error));
    }
    match reply.data {
        None => Err(ReplyError::NoData),
        Some(data) => match workspace_id_from_value(data.as_str()) {
            Ok(id) => Ok(id),
            Err(_) => Err(ReplyError::NoId),
        },
    }
}

impl WorkspacePlan {
    /// The request for the workspace.
    pub fn workspace_request(&self) -> (r: Request)
        ensures
            r == (Request::NewWorkspace { name: self.name, cwd: self.cwd }),
    {
        Request::NewWorkspace {
            name: self.name.clone(),
            cwd: crate::text::chars::clone_opt(&self.cwd),
        }
    }

    /// The request for the first pane of the workspace with an id.
    pub fn pane_request(self, workspace: String) -> (r: Request)
        ensures
            r == (Request::NewPane {
                direction: self.direction,
                command: self.command,
                title: self.title,
                workspace: Some(workspace),
                surface_kind: self.surface_kind,
            }),
    {
        Request::NewPane {
            direction: self.direction,
            command: self.command,
            title: self.title,
            workspace: Some(workspace),
            surface_kind: self.surface_kind,
        }
    }
}

/// The request for the first pane, once the answer to the request for the workspace is there.
pub fn create_workspace_with_pane(plan: WorkspacePlan, reply: Reply) -> (r: Result<
    Request,
    ReplyError,
>)
    ensures
        exists|id: Result<String, ReplyError>| #[trigger]
            replied_id(reply, id) && match id {
                Err(e) => r == Err::<Request, ReplyError>(e),
                Ok(id) => r == Ok::<Request, ReplyError>(
                    Request::NewPane {
                        direction: plan.direction,
                        command: plan.command,
                        title: plan.title,
                        workspace: Some(id),
                        surface_kind: plan.surface_kind,
                    },
                ),
            },
{
    match reply_id(reply) {
        Ok(id) => Ok(plan.pane_request(id)),
        Err(e) => Err(e),
    }
}

/// The address of a page.
pub open spec fn is_page(source: Seq<char>) -> bool {
    begins(source, "http://"@) || begins(source, "https://"@)
}

/// The words of the command that shows Markdown: with the first viewer that is installed, or
/// as plain text.
pub open spec fn markdown_words(source: Seq<char>, installed: Seq<String>) -> Seq<Seq<char>> {
    if is_page(source) {
        let fetch = "curl -L -sS "@ + quoted(source);
        if lists(installed, "glow"@) {
            seq!["sh"@, "-lc"@, fetch + " | glow -p -"@]
        } else if lists(installed, "mdcat"@) {
            seq!["sh"@, "-lc"@, fetch + " | mdcat"@]
        } else {
            seq!["curl"@, "-L"@, "-sS"@, source]
        }
    } else if lists(installed, "glow"@) {
        seq!["glow"@, "-p"@, source]
    } else if lists(installed, "mdcat"@) {
        seq!["mdcat"@, source]
    } else if lists(installed, "bat"@) {
        seq!["bat"@, "--language"@, "markdown"@, source]
    } else {
        seq!["cat"@, source]
    }
}

/// The command that shows Markdown, where the listed programs are installed.
pub fn markdown_open_command(source: &str, installed: &Vec<String>) -> (r: String)
    ensures
        r@ == shell_joined(markdown_words(source@, installed@)),
        shell_words_of(r@) == Some(markdown_words(source@, installed@)),
{
    let chars = chars_of(source);
    let mut argv: Vec<String> = Vec::new();
    if starts_with(chars.as_slice(), "http://") || starts_with(chars.as_slice(), "https://") {
        let glow = listed(installed, "glow");
        if glow || listed(installed, "mdcat") {
            let mut line = "curl -L -sS ".to_string();
            line.append(shell_quote(source).as_str());
            line.append(if glow { " | glow -p -" } else { " | mdcat" });
            argv.push("sh".to_string());
            argv.push("-lc".to_string());
            argv.push(line);
        } else {
            argv.push("curl".to_string());
            argv.push("-L".to_string());
            argv.push("-sS".to_string());
            argv.push(source.to_string());
        }
    } else if listed(installed, "glow") {
        argv.push("glow".to_string());
        argv.push("-p".to_string());
        argv.push(source.to_string());
    } else if listed(installed, "mdcat") {
        argv.push("mdcat".to_string());
        argv.push(source.to_string());
    } else if listed(installed, "bat") {
        argv.push("bat".to_string());
        argv.push("--language".to_string());
        argv.push("markdown".to_string());
        argv.push(source.to_string());
    } else {
        argv.push("cat".to_string());
        argv.push(source.to_string());
    }
    assert(texts(argv@) =~= markdown_words(source@, installed@));
    join_shell_words(&argv)
}

/// The text without the slashes at its end.
pub open spec fn without_slashes(s: Seq<char>) -> Seq<char>
    decreases s.len(),
{
    if s.len() > 0 && s.last() == '/' {
        without_slashes(s.drop_last())
    } else {
        s
    }
}

/// The last name in a path or an address.
pub open spec fn last_name(source: Seq<char>) -> Seq<char> {
    let s = without_slashes(source);
    match last_char_position(s, '/') {
        Some(i) => s.skip(i + 1),
        None => s,
    }
}

/// The title of a pane that shows Markdown: the last name of the source.
pub fn markdown_title(source: &str) -> (r: String)
    ensures
        r@ == if last_name(source@).len() == 0 {
            "markdown"@
        } else {
            "md:"@ + last_name(source@)
        },
{
    let chars = chars_of(source);
    let mut end = chars.len();
    assert(chars@.take(end as int) =~= chars@);
    while end > 0 && chars[end - 1] == '/'
        invariant
            end <= chars.len(),
            without_slashes(chars@.take(end as int)) == without_slashes(chars@),
        decreases end,
    {
        assert(chars@.take(end as int).drop_last() =~= chars@.take(end - 1));
        end -= 1;
    }
    let path = slice_subrange(chars.as_slice(), 0, end);
    assert(path@ =~= chars@.take(end as int));
    assert(path@ == without_slashes(chars@));
    let name = match rfind_char(path, '/') {
        Some(i) => slice_subrange(path, i + 1, path.len()),
        None => path,
    };
    assert(name@ =~= last_name(source@));
    if name.len() == 0 {
        "markdown".to_string()
    } else {
        let mut title = "md:".to_string();
        push_chars(&mut title, name);
        title
    }
}

/// The request for a pane that shows Markdown.
pub fn markdown_request(
    source: &str,
    installed: &Vec<String>,
    direction: SplitDirection,
    title: Option<String>,
    workspace: Option<String>,
) -> (r: Request)
    ensures
        r matches Request::NewPane { direction: d, command, title: t, workspace: w, surface_kind }
            && d == direction && w == workspace && surface_kind == Some(SurfaceKind::Markdown)
            && command@ == shell_joined(markdown_words(source@, installed@)) && match title {
            Some(title) => t == Some(title),
            None => opt_text(t) == Some(
                if last_name(source@).len() == 0 {
                    "markdown"@
                } else {
                    "md:"@ + last_name(source@)
                },
            ),
        },
{
    let title = match title {
        Some(title) => title,
        None => markdown_title(source),
    };
    Request::NewPane {
        direction,
        command: markdown_open_command(source, installed),
        title: Some(title),
        workspace,
        surface_kind: Some(SurfaceKind::Markdown),
    }
}

} // verus!
