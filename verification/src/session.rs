//! State shared with the interactive front end: the mode the interface is
//! in, pending confirmations, pagination, the profile-switch outcome, and
//! collected log events. Plain data; the front end owns the event loop.

use vstd::prelude::*;

verus! {

/// What the interface is doing.
#[derive(Debug, Clone, PartialEq, Eq, Structural)]
pub enum Mode {
    /// Viewing the list.
    Normal,
    /// Command input.
    Command,
    /// The help popup.
    Help,
    /// A confirmation dialog.
    Confirm,
    /// A warning dialog.
    Warning,
    /// Profile selection.
    Profiles,
    /// Region selection.
    Regions,
    /// Viewing one item's details.
    Describe,
    /// The browser-login dialog.
    SsoLogin,
    /// Tailing a log stream.
    LogTail,
}

/// An action awaiting confirmation.
#[derive(Debug, Clone)]
pub struct PendingAction {
    pub service: String,
    pub sdk_method: String,
    pub resource_id: String,
    pub message: String,
    pub default_no: bool,
    pub destructive: bool,
    pub selected_yes: bool,
}

/// Where the listing stands in its pages.
#[derive(Debug, Clone)]
pub struct PaginationState {
    pub next_token: Option<String>,
    pub token_stack: Vec<Option<String>>,
    pub current_page: usize,
    pub has_more: bool,
}

impl Default for PaginationState {
    /// The first page, with nothing to go back to.
    fn default() -> (r: PaginationState)
        ensures
            r.next_token is None,
            r.token_stack@.len() == 0,
            r.current_page == 1,
            !r.has_more,
    {
        PaginationState { next_token: None, token_stack: Vec::new(), current_page: 1, has_more: false }
    }
}

/// Where the browser-login flow stands.
#[derive(Debug, Clone)]
pub enum SsoLoginState {
    /// Prompting to start.
    Prompt { profile: String, sso_session: String },
    /// Waiting for the browser authorization.
    WaitingForAuth {
        profile: String,
        user_code: String,
        verification_uri: String,
        device_code: String,
        interval: u64,
        sso_region: String,
    },
    /// Login finished; switch to this profile.
    Success { profile: String },
    /// Login failed.
    Failed { error: String },
}

/// What switching profiles concluded.
#[derive(Debug, Clone)]
pub enum ProfileSwitchResult {
    /// Switched.
    Success,
    /// A browser login must run first.
    SsoRequired { profile: String, sso_session: String },
}

/// One collected log event.
#[derive(Debug, Clone)]
pub struct LogEvent {
    pub timestamp: i64,
    pub message: String,
}

/// The state of the log-tailing view; times are epoch milliseconds.
#[derive(Debug, Clone)]
pub struct LogTailState {
    pub log_group: String,
    pub log_stream: String,
    pub events: Vec<LogEvent>,
    pub scroll: usize,
    pub next_forward_token: Option<String>,
    pub auto_scroll: bool,
    pub paused: bool,
    pub last_poll_epoch_millis: u64,
    pub error: Option<String>,
}

} // verus!
