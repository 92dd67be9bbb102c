//! The interface the interactive browser consumes: the view modes, the
//! detail tabs, the actions it can ask the core to perform, and the
//! polling cadence of its event loop. The browser itself — terminal
//! handling, key decoding, drawing — is a client of the library and
//! stays outside it.

use vstd::prelude::*;

verus! {

/// Which view the browser is showing.
#[derive(Debug, Clone, Copy, PartialEq, Eq, Structural)]
pub enum ViewMode {
    Search,
    Detail,
}

/// Which tab of the detail view is selected.
#[derive(Debug, Clone, Copy, PartialEq, Eq, Structural)]
pub enum DetailTab {
    OpenFiles,
    Network,
    FileTree,
    Summary,
}

/// One request from the browser to the core. The browser is the sole
/// source of these; the core never interprets keys.
#[derive(Debug, Clone, Copy, PartialEq, Eq, Structural)]
pub enum Action {
    Quit,
    SearchInput(char),
    SearchBackspace,
    SearchClear,
    MoveUp,
    MoveDown,
    PageUp,
    PageDown,
    Select,
    Back,
    NextTab,
    PrevTab,
    Refresh,
    YankSelected,
    ExportProcess,
}

/// The polling cadence of the browser's event loop.
#[derive(Debug, Clone, Copy)]
pub struct EventHandler {
    /// Poll timeout in milliseconds.
    pub tick_rate_ms: u64,
}

impl EventHandler {
    /// An event handler that polls with the given timeout.
    pub fn new(tick_rate_ms: u64) -> (r: Self)
        ensures
            r.tick_rate_ms == tick_rate_ms,
    {
        EventHandler { tick_rate_ms }
    }
}

} // verus!
