//! Coarse application state and view selection shared with the shell.

use vstd::prelude::*;

verus! {

/// What the application is doing: idle, running a processor, or stopped on
/// an error.
#[derive(Debug, Clone)]
pub enum AppState {
    Idle,
    Processing { processor_id: String },
    Error(String),
}

impl AppState {
    /// The idle state.
    pub fn idle() -> (s: AppState)
        ensures
            s is Idle,
    {
        AppState::Idle
    }

    /// The state of running the given processor.
    pub fn processing(processor_id: String) -> (s: AppState)
        ensures
            s matches AppState::Processing { processor_id: p } && p == processor_id,
    {
        AppState::Processing { processor_id }
    }

    /// The state of having stopped on an error.
    pub fn error(message: String) -> (s: AppState)
        ensures
            s matches AppState::Error(m) && m == message,
    {
        AppState::Error(message)
    }

    /// Whether the application is idle.
    pub fn is_idle(&self) -> (r: bool)
        ensures
            r == (self is Idle),
    {
        match self {
            AppState::Idle => true,
            _ => false,
        }
    }

    /// Whether a processor is running.
    pub fn is_processing(&self) -> (r: bool)
        ensures
            r == (self is Processing),
    {
        match self {
            AppState::Processing { .. } => true,
            _ => false,
        }
    }

    /// Whether the application stopped on an error.
    pub fn is_error(&self) -> (r: bool)
        ensures
            r == (self is Error),
    {
        match self {
            AppState::Error(_) => true,
            _ => false,
        }
    }

    /// The running processor's identifier, while one is running.
    pub fn processor_id(&self) -> (r: Option<&str>)
        ensures
            (r is Some) == (self is Processing),
            r matches Some(s) ==> (self matches AppState::Processing { processor_id } && s@
                == processor_id@),
    {
        match self {
            AppState::Processing { processor_id } => Some(processor_id.as_str()),
            _ => None,
        }
    }

    /// The error message, while stopped on an error.
    pub fn error_message(&self) -> (r: Option<&str>)
        ensures
            (r is Some) == (self is Error),
            r matches Some(s) ==> (self matches AppState::Error(m) && s@ == m@),
    {
        match self {
            AppState::Error(message) => Some(message.as_str()),
            _ => None,
        }
    }
}

/// Which view the shell shows.
#[derive(Debug, Clone, Copy, PartialEq, Eq, Structural)]
pub enum AppView {
    Home,
    Processing,
    Settings,
    History,
}

/// Whether a processor's input is a single file or a folder of files.
#[derive(Debug, Clone, Copy, PartialEq, Eq, Structural)]
pub enum InputType {
    File,
    Folder,
}

} // verus!
