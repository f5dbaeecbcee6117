//! What a caller is told of a request that is refused.
use crate::input;
use crate::browser::evaluate::EvalError;
use crate::browser::network::FetchError;
use crate::browser::open::{LinkError, SubmitError};
use crate::browser::refusals::{
    evaluation_message, fetch_message, link_message, submit_message, url_message,
};
use crate::browser::url::UrlError;
use crate::daemon::capture::ViewError;
use crate::daemon::dispatch::DispatchError;
use crate::daemon::handlers::{PaneError, ZoomError};
use crate::daemon::navigate::{JumpError, TargetError};
use crate::daemon::panes::{KeyError, TabError};
use crate::daemon::plans::DuplicateError;
use crate::daemon::refusals::dispatch_message;
use crate::daemon::workspaces::{FocusError, SelectError};
use crate::text::numbers::decimal;
use vstd::prelude::*;

verus! {

/// A workspace, a pane, a tab or a key that is not known is named in the refusal.
pub proof fn what_is_unknown_is_named(e: &DispatchError, r: String)
    requires
        call_ensures(dispatch_message, (e,), r),
    ensures
        e matches DispatchError::Select(SelectError::Unknown(name)) ==> r@ == "unknown workspace "@
            + name@,
        e matches DispatchError::Select(SelectError::Ambiguous(name)) ==> r@
            == "workspace selector "@ + name@ + " is ambiguous"@,
        e matches DispatchError::Pane(PaneError::Unknown(name)) ==> r@ == "unknown pane "@ + name@,
        e matches DispatchError::Pane(PaneError::NoActive) ==> r@ == "no active pane"@,
        e matches DispatchError::Tab(TabError::Unknown(name)) ==> r@ == "unknown tab "@ + name@,
        e matches DispatchError::Tab(TabError::Ambiguous(name)) ==> r@ == "tab selector "@ + name@
            + " is ambiguous"@,
        e matches DispatchError::Keys(input::KeyError::UnknownKey(name)) ==> r@ == "unknown key "@
            + name@,
        e matches DispatchError::Keys(input::KeyError::UnknownModifier(name)) ==> r@
            == "unknown key modifier "@ + name@,
        e matches DispatchError::Keys(input::KeyError::Unsupported(name)) ==> r@
            == "unsupported key "@ + name@,
        e matches DispatchError::View(ViewError::Zoomed(name)) ==> r@ == "pane "@ + name@
            + " is zoomed; not applying a view size"@,
        e matches DispatchError::Focus(FocusError::Detached(name)) ==> r@ == "pane "@ + name@
            + " is not attached to any workspace"@,
        e matches DispatchError::Focus(FocusError::NotHere(name)) ==> r@ == "pane "@ + name@
            + " is not in active workspace"@,
        e matches DispatchError::Zoom(ZoomError::NotHere(name)) ==> r@ == "pane "@ + name@
            + " is not in active workspace"@,
        e matches DispatchError::Jump(JumpError::Detached(name)) ==> r@ == "notification pane "@
            + name@ + " is no longer attached"@,
        e matches DispatchError::Jump(JumpError::NoWorkspace(name)) ==> r@
            == "notification workspace "@ + name@ + " no longer exists"@,
        e matches DispatchError::Duplicate(DuplicateError::Detached(name)) ==> r@ == "pane "@ + name@
            + " is not attached to a workspace"@,
{
}

/// A refusal says which rule the request breaks.
pub proof fn broken_rules_are_told(e: &DispatchError, r: String)
    requires
        call_ensures(dispatch_message, (e,), r),
    ensures
        e is LastWorkspace ==> r@ == "cannot close the last workspace"@,
        e is LastTab ==> r@ == "cannot close the last tab"@,
        e is NotTogether ==> r@ == "panes must be in the same workspace"@,
        e is NothingCopied ==> r@ == "clipboard is empty"@,
        e is EmptyQuery ==> r@ == "search query cannot be empty"@,
        e is EmptyActionName ==> r@ == "action name cannot be empty"@,
        e is ZeroLink ==> r@ == "link index is 1-based"@,
        e is ZeroForm ==> r@ == "form index is 1-based"@,
        e is CommandForMany ==> r@ == "--command can only be used when restarting one pane"@,
        e is NoPanes ==> r@ == "active workspace has no panes"@,
        e matches DispatchError::Jump(JumpError::Empty) ==> r@ == "no notifications"@,
        e matches DispatchError::Target(TargetError::NoPanes) ==> r@ == "workspace has no panes"@,
        e matches DispatchError::Keys(input::KeyError::NoKeys) ==> r@
            == "at least one key is required"@,
        e matches DispatchError::Keys(input::KeyError::Empty) ==> r@ == "key cannot be empty"@,
        e is Title ==> r@ == "pane title cannot be empty"@,
        e matches DispatchError::MetadataKey(KeyError::Empty) ==> r@
            == "metadata key cannot be empty"@,
        e matches DispatchError::MetadataKey(KeyError::WhiteSpace) ==> r@
            == "metadata key cannot contain whitespace"@,
{
}

/// A page that cannot be opened is told by what its address lacks.
pub proof fn bad_addresses_are_told(e: &UrlError, r: String)
    requires
        call_ensures(url_message, (e,), r),
    ensures
        e is Empty ==> r@ == "open-url requires a URL"@,
        e is BadCharacter ==> r@ == "URL must not contain whitespace or control characters"@,
        e is BadScheme ==> r@ == "open-url only supports http:// and https:// URLs"@,
        e is NoHost ==> r@ == "URL is missing a host"@,
{
}

/// A link or a form that is not there is told by its number.
pub proof fn missing_parts_are_told(
    link: &LinkError,
    l: String,
    form: &SubmitError,
    f: String,
    label: &str,
    fetch: &FetchError,
    t: String,
)
    requires
        call_ensures(link_message, (link,), l),
        call_ensures(submit_message, (form,), f),
        call_ensures(fetch_message, (label, fetch), t),
    ensures
        link is ZeroIndex ==> l@ == "link index is 1-based"@,
        link matches LinkError::OutOfRange(n) ==> l@ == "link index "@ + decimal(*n as nat)
            + " out of range"@,
        form is ZeroIndex ==> f@ == "form index is 1-based"@,
        form matches SubmitError::OutOfRange(n) ==> f@ == "form index "@ + decimal(*n as nat)
            + " out of range"@,
        form matches SubmitError::UnknownMethod(name) ==> f@ == "unsupported form method "@ + name@,
        fetch matches FetchError::Failed(said) ==> t@ == label@ + " failed: "@ + said@,
        fetch matches FetchError::TooLarge(n) ==> t@ == label@ + " response too large ("@ + decimal(
            *n as nat,
        ) + " bytes; max "@ + decimal(2097152) + ")"@,
{
}

/// An expression that cannot be answered is told by what it asks for.
pub proof fn unanswered_expressions_are_told(e: &EvalError, r: String)
    requires
        call_ensures(evaluation_message, (e,), r),
    ensures
        e is Empty ==> r@ == "browser evaluate expression cannot be empty"@,
        e matches EvalError::LinkOutOfRange(n) ==> r@ == "link index "@ + decimal(*n as nat)
            + " out of range"@,
        e matches EvalError::FormOutOfRange(n) ==> r@ == "form index "@ + decimal(*n as nat)
            + " out of range"@,
        e matches EvalError::LinkHasNoField(n, field) ==> r@ == "link index "@ + decimal(*n as nat)
            + " has no field "@ + field@,
        e matches EvalError::FormHasNoField(n, field) ==> r@ == "form index "@ + decimal(*n as nat)
            + " has no field "@ + field@,
{
}

} // verus!
