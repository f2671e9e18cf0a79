//! Console handling
//!
//! When the settings of the local console are saved, changed and restored.
use vstd::prelude::*;

use crate::error::IoError;

verus! {

/// Console that is put into raw mode for a session, with settings of type `T`
#[derive(Debug)]
pub struct PseudoTerminalConsole<T> {
    terminal_backup: Option<T>,
    is_setup: bool,
}

/// The state of a [`PseudoTerminalConsole`].
pub struct ConsoleView<T> {
    /// Backup of the console's settings for teardown
    pub backup: Option<T>,
    /// Whether the console has been set up
    pub is_setup: bool,
}

impl<T> View for PseudoTerminalConsole<T> {
    type V = ConsoleView<T>;

    closed spec fn view(&self) -> ConsoleView<T> {
        ConsoleView { backup: self.terminal_backup, is_setup: self.is_setup }
    }
}

/// The error of a failed call is passed on.
pub open spec fn passes_on<A, B>(outcome: Result<A, IoError>, r: Result<B, IoError>) -> bool {
    match outcome {
        Ok(_) => r is Ok,
        Err(e) => r == Err::<B, IoError>(e),
    }
}

impl<T> ConsoleView<T> {
    /// The state once the settings have been read for setup.
    pub open spec fn saved(self, settings: T) -> ConsoleView<T> {
        ConsoleView { backup: Some(settings), ..self }
    }

    /// The settings that teardown is to restore.
    pub open spec fn to_restore(self) -> Option<T> {
        if self.is_setup {
            self.backup
        } else {
            None
        }
    }
}

impl<T> PseudoTerminalConsole<T> {
    /// Creates a new console with the current settings, once they have been read, or not
    pub fn new(settings: Result<T, IoError>) -> (r: Result<PseudoTerminalConsole<T>, IoError>)
        ensures
            match settings {
                Ok(settings) => r matches Ok(console) && console@ == (ConsoleView {
                    backup: Some(settings),
                    is_setup: false,
                }),
                Err(e) => r == Err::<PseudoTerminalConsole<T>, IoError>(e),
            },
    {
        match settings {
            Ok(settings) => Ok(
                PseudoTerminalConsole { terminal_backup: Some(settings), is_setup: false },
            ),
            Err(e) => Err(e),
        }
    }

    /// Tells whether setup has anything to do: a console is set up once
    pub fn setup(&self) -> (r: bool)
        ensures
            r == !self@.is_setup,
    {
        !self.is_setup
    }

    /// Goes on with setup once the settings have been read, or not
    pub fn settings_read(&mut self, settings: Result<T, IoError>) -> (r: Result<(), IoError>)
        ensures
            passes_on(settings, r),
            final(self)@ == match settings {
                Ok(settings) => old(self)@.saved(settings),
                Err(_) => old(self)@,
            },
    {
        match settings {
            Ok(settings) => {
                self.terminal_backup = Some(settings);
                Ok(())
            },
            Err(e) => Err(e),
        }
    }

    /// Ends setup once the console has been put into raw mode, or not
    pub fn raw_mode_set(&mut self, outcome: Result<(), IoError>) -> (r: Result<(), IoError>)
        ensures
            r == outcome,
            final(self)@ == (ConsoleView {
                is_setup: old(self)@.is_setup || outcome is Ok,
                ..old(self)@
            }),
    {
        if outcome.is_ok() {
            self.is_setup = true;
        }
        outcome
    }

    /// Tells whether teardown has anything to do
    pub fn teardown(&self) -> (r: bool)
        ensures
            r == self@.is_setup,
    {
        self.is_setup
    }

    /// The settings that teardown is to restore
    pub fn backup(&self) -> (r: Option<&T>)
        ensures
            match r {
                Some(settings) => self@.to_restore() == Some(*settings),
                None => self@.to_restore() is None,
            },
    {
        if self.is_setup {
            self.terminal_backup.as_ref()
        } else {
            None
        }
    }

    /// Ends teardown once the settings have been restored, or not
    pub fn restored(&mut self, outcome: Result<(), IoError>) -> (r: Result<(), IoError>)
        ensures
            r == outcome,
            final(self)@ == (ConsoleView {
                is_setup: old(self)@.is_setup && outcome is Err,
                ..old(self)@
            }),
    {
        if outcome.is_ok() {
            self.is_setup = false;
        }
        outcome
    }
}

/// Teardown restores the settings that setup found, and only where setup has changed them.
pub proof fn law_teardown_restores_what_setup_found<T>(console: ConsoleView<T>, found: T)
    requires
        !console.is_setup,
    ensures
        console.to_restore() is None,
        console.saved(found).to_restore() is None,
        (ConsoleView { is_setup: true, ..console.saved(found) }).to_restore() == Some(found),
{
}

} // verus!
