//! What a refusal says.
use crate::daemon::capture::ViewError;
use crate::daemon::dispatch::DispatchError;
use crate::daemon::handlers::{PaneError, ZoomError};
use crate::daemon::navigate::{JumpError, TargetError};
use crate::daemon::panes::{KeyError, TabError, TitleError};
use crate::daemon::plans::DuplicateError;
use crate::daemon::snapshot::IdentifyError;
use crate::daemon::workspaces::{FocusError, SelectError};
use crate::input;
use crate::text::chars::{around, naming};
use vstd::prelude::*;

verus! {

/// Why no workspace is selected, in words.
pub open spec fn select_words(e: SelectError) -> Seq<char> {
    match e {
        SelectError::Unknown(name) => "unknown workspace "@ + name@,
        SelectError::Ambiguous(name) => "workspace selector "@ + name@ + " is ambiguous"@,
    }
}

/// Why no workspace is selected, in words.
pub fn select_message(e: &SelectError) -> (r: String)
    ensures
        r@ == select_words(*e),
{
    match e {
        SelectError::Unknown(name) => naming("unknown workspace ", name.as_str()),
        SelectError::Ambiguous(name) => around("workspace selector ", name.as_str(), " is ambiguous"),
    }
}

/// Why no pane is meant, in words.
pub open spec fn pane_words(e: PaneError) -> Seq<char> {
    match e {
        PaneError::NoActive => "no active pane"@,
        PaneError::Unknown(name) => "unknown pane "@ + name@,
    }
}

/// Why no pane is meant, in words.
pub fn pane_message(e: &PaneError) -> (r: String)
    ensures
        r@ == pane_words(*e),
{
    match e {
        PaneError::NoActive => "no active pane".to_string(),
        PaneError::Unknown(name) => naming("unknown pane ", name.as_str()),
    }
}

/// Why a title is refused, in words.
pub open spec fn title_words(e: TitleError) -> Seq<char> {
    match e {
        TitleError::Empty => "pane title cannot be empty"@,
    }
}

/// Why a title is refused, in words.
pub fn title_message(e: &TitleError) -> (r: String)
    ensures
        r@ == title_words(*e),
{
    match e {
        TitleError::Empty => "pane title cannot be empty".to_string(),
    }
}

/// Why a metadata key is refused, in words.
pub open spec fn metadata_key_words(e: KeyError) -> Seq<char> {
    match e {
        KeyError::Empty => "metadata key cannot be empty"@,
        KeyError::WhiteSpace => "metadata key cannot contain whitespace"@,
    }
}

/// Why a metadata key is refused, in words.
pub fn metadata_key_message(e: &KeyError) -> (r: String)
    ensures
        r@ == metadata_key_words(*e),
{
    match e {
        KeyError::Empty => "metadata key cannot be empty".to_string(),
        KeyError::WhiteSpace => "metadata key cannot contain whitespace".to_string(),
    }
}

/// Why no tab is selected, in words.
pub open spec fn tab_words(e: TabError) -> Seq<char> {
    match e {
        TabError::Unknown(name) => "unknown tab "@ + name@,
        TabError::Ambiguous(name) => "tab selector "@ + name@ + " is ambiguous"@,
    }
}

/// Why no tab is selected, in words.
pub fn tab_message(e: &TabError) -> (r: String)
    ensures
        r@ == tab_words(*e),
{
    match e {
        TabError::Unknown(name) => naming("unknown tab ", name.as_str()),
        TabError::Ambiguous(name) => around("tab selector ", name.as_str(), " is ambiguous"),
    }
}

/// Why a pane is not shown, in words.
pub open spec fn focus_words(e: FocusError) -> Seq<char> {
    match e {
        FocusError::Detached(name) => "pane "@ + name@ + " is not attached to any workspace"@,
        FocusError::NoTab(name) => "unknown tab "@ + name@,
        FocusError::NotHere(name) => "pane "@ + name@ + " is not in active workspace"@,
    }
}

/// Why a pane is not shown, in words.
pub fn focus_message(e: &FocusError) -> (r: String)
    ensures
        r@ == focus_words(*e),
{
    match e {
        FocusError::Detached(name) => around("pane ", name.as_str(), " is not attached to any workspace"),
        FocusError::NoTab(name) => naming("unknown tab ", name.as_str()),
        FocusError::NotHere(name) => around("pane ", name.as_str(), " is not in active workspace"),
    }
}

/// Why no pane is zoomed, in words.
pub open spec fn zoom_words(e: ZoomError) -> Seq<char> {
    match e {
        ZoomError::NoPanes => "active workspace has no panes"@,
        ZoomError::NotHere(name) => "pane "@ + name@ + " is not in active workspace"@,
    }
}

/// Why no pane is zoomed, in words.
pub fn zoom_message(e: &ZoomError) -> (r: String)
    ensures
        r@ == zoom_words(*e),
{
    match e {
        ZoomError::NoPanes => "active workspace has no panes".to_string(),
        ZoomError::NotHere(name) => around("pane ", name.as_str(), " is not in active workspace"),
    }
}

/// Why no notification is followed, in words.
pub open spec fn jump_words(e: JumpError) -> Seq<char> {
    match e {
        JumpError::Empty => "no notifications"@,
        JumpError::Detached(name) => "notification pane "@ + name@ + " is no longer attached"@,
        JumpError::NoTarget => "latest notification has no target workspace or pane"@,
        JumpError::NoWorkspace(name) => "notification workspace "@ + name@ + " no longer exists"@,
        JumpError::NoTab(name) => "unknown tab "@ + name@,
    }
}

/// Why no notification is followed, in words.
pub fn jump_message(e: &JumpError) -> (r: String)
    ensures
        r@ == jump_words(*e),
{
    match e {
        JumpError::Empty => "no notifications".to_string(),
        JumpError::Detached(name) => around("notification pane ", name.as_str(), " is no longer attached"),
        JumpError::NoTarget => "latest notification has no target workspace or pane".to_string(),
        JumpError::NoWorkspace(name) => around("notification workspace ", name.as_str(), " no longer exists"),
        JumpError::NoTab(name) => naming("unknown tab ", name.as_str()),
    }
}

/// Why keys are not sent, in words.
pub open spec fn keys_words(e: input::KeyError) -> Seq<char> {
    match e {
        input::KeyError::NoKeys => "at least one key is required"@,
        input::KeyError::Empty => "key cannot be empty"@,
        input::KeyError::UnknownModifier(name) => "unknown key modifier "@ + name@,
        input::KeyError::UnknownKey(name) => "unknown key "@ + name@,
        input::KeyError::Unsupported(name) => "unsupported key "@ + name@,
    }
}

/// Why keys are not sent, in words.
pub fn keys_message(e: &input::KeyError) -> (r: String)
    ensures
        r@ == keys_words(*e),
{
    match e {
        input::KeyError::NoKeys => "at least one key is required".to_string(),
        input::KeyError::Empty => "key cannot be empty".to_string(),
        input::KeyError::UnknownModifier(name) => naming("unknown key modifier ", name.as_str()),
        input::KeyError::UnknownKey(name) => naming("unknown key ", name.as_str()),
        input::KeyError::Unsupported(name) => naming("unsupported key ", name.as_str()),
    }
}

/// Why a pane is not doubled, in words.
pub open spec fn duplicate_words(e: DuplicateError) -> Seq<char> {
    match e {
        DuplicateError::Unknown(name) => "unknown pane "@ + name@,
        DuplicateError::Detached(name) => "pane "@ + name@ + " is not attached to a workspace"@,
    }
}

/// Why a pane is not doubled, in words.
pub fn duplicate_message(e: &DuplicateError) -> (r: String)
    ensures
        r@ == duplicate_words(*e),
{
    match e {
        DuplicateError::Unknown(name) => naming("unknown pane ", name.as_str()),
        DuplicateError::Detached(name) => around("pane ", name.as_str(), " is not attached to a workspace"),
    }
}

/// Why there are no panes to wait for, in words.
pub open spec fn target_words(e: TargetError) -> Seq<char> {
    match e {
        TargetError::NoPanes => "workspace has no panes"@,
        TargetError::Pane(e) => pane_words(e),
    }
}

/// Why there are no panes to wait for, in words.
pub fn target_message(e: &TargetError) -> (r: String)
    ensures
        r@ == target_words(*e),
{
    match e {
        TargetError::NoPanes => "workspace has no panes".to_string(),
        TargetError::Pane(e) => pane_message(e),
    }
}

/// Why a viewer cannot hold a pane to a size, in words.
pub open spec fn view_words(e: ViewError) -> Seq<char> {
    match e {
        ViewError::Zoomed(name) => "pane "@ + name@ + " is zoomed; not applying a view size"@,
        ViewError::Unknown(name) => "unknown pane "@ + name@,
    }
}

/// Why a viewer cannot hold a pane to a size, in words.
pub fn view_message(e: &ViewError) -> (r: String)
    ensures
        r@ == view_words(*e),
{
    match e {
        ViewError::Zoomed(name) => around("pane ", name.as_str(), " is zoomed; not applying a view size"),
        ViewError::Unknown(name) => naming("unknown pane ", name.as_str()),
    }
}

/// Why a pane is not identified, in words.
pub open spec fn identify_words(e: IdentifyError) -> Seq<char> {
    match e {
        IdentifyError::NoActive => "no active pane"@,
        IdentifyError::Detached(name) => "pane "@ + name@ + " is not attached to a workspace"@,
        IdentifyError::Unknown(name) => "unknown pane "@ + name@,
    }
}

/// Why a pane is not identified, in words.
pub fn identify_message(e: &IdentifyError) -> (r: String)
    ensures
        r@ == identify_words(*e),
{
    match e {
        IdentifyError::NoActive => "no active pane".to_string(),
        IdentifyError::Detached(name) => around("pane ", name.as_str(), " is not attached to a workspace"),
        IdentifyError::Unknown(name) => naming("unknown pane ", name.as_str()),
    }
}

/// Why a request is refused, in words.
pub open spec fn dispatch_words(e: DispatchError) -> Seq<char> {
    match e {
        DispatchError::Select(e) => select_words(e),
        DispatchError::Pane(e) => pane_words(e),
        DispatchError::Title(e) => title_words(e),
        DispatchError::MetadataKey(e) => metadata_key_words(e),
        DispatchError::Tab(e) => tab_words(e),
        DispatchError::Focus(e) => focus_words(e),
        DispatchError::Zoom(e) => zoom_words(e),
        DispatchError::Jump(e) => jump_words(e),
        DispatchError::Keys(e) => keys_words(e),
        DispatchError::Duplicate(e) => duplicate_words(e),
        DispatchError::Target(e) => target_words(e),
        DispatchError::View(e) => view_words(e),
        DispatchError::NoPaneTabs => "per-pane tabs were removed; use workspace tabs (vmux tab list|new|switch|rename|close)"@,
        DispatchError::CommandForMany => "--command can only be used when restarting one pane"@,
        DispatchError::EmptyQuery => "search query cannot be empty"@,
        DispatchError::ZeroLink => "link index is 1-based"@,
        DispatchError::ZeroForm => "form index is 1-based"@,
        DispatchError::EmptyActionName => "action name cannot be empty"@,
        DispatchError::LastWorkspace => "cannot close the last workspace"@,
        DispatchError::LastTab => "cannot close the last tab"@,
        DispatchError::NotTogether => "panes must be in the same workspace"@,
        DispatchError::NothingCopied => "clipboard is empty"@,
        DispatchError::NoNumbers => "no numbers are left for new panes, tabs or workspaces"@,
        DispatchError::NoPanes => "active workspace has no panes"@,
    }
}

/// Why a request is refused, in words.
pub fn dispatch_message(e: &DispatchError) -> (r: String)
    ensures
        r@ == dispatch_words(*e),
{
    match e {
        DispatchError::Select(e) => select_message(e),
        DispatchError::Pane(e) => pane_message(e),
        DispatchError::Title(e) => title_message(e),
        DispatchError::MetadataKey(e) => metadata_key_message(e),
        DispatchError::Tab(e) => tab_message(e),
        DispatchError::Focus(e) => focus_message(e),
        DispatchError::Zoom(e) => zoom_message(e),
        DispatchError::Jump(e) => jump_message(e),
        DispatchError::Keys(e) => keys_message(e),
        DispatchError::Duplicate(e) => duplicate_message(e),
        DispatchError::Target(e) => target_message(e),
        DispatchError::View(e) => view_message(e),
        DispatchError::NoPaneTabs => "per-pane tabs were removed; use workspace tabs (vmux tab list|new|switch|rename|close)".to_string(),
        DispatchError::CommandForMany => "--command can only be used when restarting one pane".to_string(),
        DispatchError::EmptyQuery => "search query cannot be empty".to_string(),
        DispatchError::ZeroLink => "link index is 1-based".to_string(),
        DispatchError::ZeroForm => "form index is 1-based".to_string(),
        DispatchError::EmptyActionName => "action name cannot be empty".to_string(),
        DispatchError::LastWorkspace => "cannot close the last workspace".to_string(),
        DispatchError::LastTab => "cannot close the last tab".to_string(),
        DispatchError::NotTogether => "panes must be in the same workspace".to_string(),
        DispatchError::NothingCopied => "clipboard is empty".to_string(),
        DispatchError::NoNumbers => "no numbers are left for new panes, tabs or workspaces".to_string(),
        DispatchError::NoPanes => "active workspace has no panes".to_string(),
    }
}

} // verus!
