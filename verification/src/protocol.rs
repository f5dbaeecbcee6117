//! What clients ask of a daemon.
use crate::model::{BroadcastScope, PaneSize, SplitDirection, SurfaceKind};
use vstd::prelude::*;

verus! {

/// A request.
#[derive(Debug)]
#[allow(inconsistent_fields)]
pub enum Request {
    Ping,
    Snapshot { since: Option<u64>, full: bool, lean: bool, scrollback_panes: Vec<String> },
    List,
    Agents,
    Identify { pane: Option<String> },
    NewPane {
        direction: SplitDirection,
        command: String,
        title: Option<String>,
        workspace: Option<String>,
        surface_kind: Option<SurfaceKind>,
    },
    DuplicatePane { pane: Option<String>, direction: SplitDirection },
    OpenUrl {
        url: String,
        direction: SplitDirection,
        title: Option<String>,
        workspace: Option<String>,
    },
    UrlSnapshot { url: String },
    UrlLinks { url: String },
    UrlForms { url: String },
    UrlEvaluate { url: String, expression: String },
    UrlConsole { url: String },
    UrlNetwork { url: String },
    OpenUrlLink {
        url: String,
        index: usize,
        direction: SplitDirection,
        title: Option<String>,
        workspace: Option<String>,
    },
    SubmitForm {
        url: String,
        index: usize,
        /// Names and values, by name, each name once.
        fields: Vec<(String, String)>,
        direction: SplitDirection,
        title: Option<String>,
        workspace: Option<String>,
    },
    CustomActions { workspace: Option<String> },
    RunCustomAction { name: String, workspace: Option<String> },
    KillPane { pane: Option<String> },
    Prune { workspace: Option<String>, all: bool },
    RestartPane {
        pane: Option<String>,
        workspace: Option<String>,
        all: bool,
        command: Option<String>,
    },
    MovePane { pane: Option<String>, workspace: String, direction: SplitDirection },
    SwapPanes { first: String, second: String },
    SetPaneTitle { pane: Option<String>, title: String },
    SetPaneMetadata { pane: Option<String>, key: String, value: Option<String> },
    ListTabs { workspace: Option<String> },
    NewTab { workspace: Option<String>, title: Option<String>, command: Option<String> },
    SwitchTab { workspace: Option<String>, tab: String },
    RenameTab { workspace: Option<String>, tab: String, title: String },
    CloseTab { workspace: Option<String>, tab: String },
    MovePaneInLayout { pane: Option<String>, direction: SplitDirection },
    /// A request for tabs of one pane, which there are no more.
    PaneTabs,
    WaitPane {
        pane: Option<String>,
        workspace: Option<String>,
        all: bool,
        timeout_ms: Option<u64>,
    },
    NewWorkspace { name: String, cwd: Option<String> },
    SwitchWorkspace { workspace: String },
    RenameWorkspace { workspace: String, name: String },
    CloseWorkspace { workspace: Option<String> },
    SetWorkspaceCwd { workspace: String, cwd: String },
    SetWorkspacePinned { workspace: String, pinned: bool },
    MoveWorkspace { workspace: String, position: usize },
    FocusPane { pane: String },
    FocusDirection { direction: SplitDirection },
    ToggleZoom { pane: Option<String> },
    Resize { direction: SplitDirection, amount: u16 },
    Input { pane: Option<String>, data: String },
    SendKey { pane: Option<String>, keys: Vec<String> },
    Broadcast { scope: BroadcastScope, data: String },
    Notify {
        pane: Option<String>,
        workspace: Option<String>,
        status: Option<String>,
        color: Option<String>,
        clear: bool,
        message: String,
        title: Option<String>,
    },
    Notifications { limit: usize },
    Events { limit: usize },
    ClearNotifications,
    JumpNotification,
    Progress { pane: Option<String>, value: Option<u8> },
    ReadScreen {
        pane: Option<String>,
        scrollback: bool,
        limit_bytes: Option<usize>,
        ansi: bool,
        history_lines: usize,
    },
    Search { pane: Option<String>, query: String },
    ClearPane { pane: Option<String> },
    CopyPane { pane: Option<String>, scrollback: bool, limit_bytes: Option<usize> },
    Paste { pane: Option<String>, enter: bool },
    Clipboard,
    SetClipboard { text: String, source_pane: Option<String>, source: String },
    PaneSizes { panes: Vec<(String, PaneSize)>, client_id: Option<String>, take_control: bool },
    SetPaneViewSize { pane: String, cols: u16, rows: u16, lease_ms: u64 },
    ClearPaneViewSize { pane: String },
    Shutdown,
}

} // verus!
