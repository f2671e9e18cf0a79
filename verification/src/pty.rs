//! Pseudo-terminal (PTY) handling
//!
//! The terminal of a session as the server knows it: its process, its descriptor, and the shell
//! that it runs.
use vstd::prelude::*;

use crate::error::{IoError, IoKind};
use crate::terminal_info::{winsize_of, TerminalInfo, WinSize};
use crate::text::option_view;
use crate::NO_SOCKET;

verus! {

/// The shell that runs where none is known
pub const FALLBACK_SHELL: &'static str = "/bin/sh";

/// The argument that makes a shell a login shell
pub const LOGIN_FLAG: &'static str = "-l";

/// A pseudo-terminal that runs the user's shell
#[derive(Debug)]
pub struct PseudoUserTerminal {
    /// PID of the child shell
    pub pid: Option<i32>,
    /// Master PTY file descriptor
    pub master_fd: i32,
}

/// A process that was forked with a new terminal
#[derive(Debug, Clone, Copy, PartialEq, Eq, Structural)]
pub struct Forked {
    /// PID of the process
    pub pid: i32,
    /// Descriptor of its terminal
    pub master_fd: i32,
}

/// An error of no particular kind.
pub open spec fn is_other_error(e: IoError, text: Seq<char>) -> bool {
    e.kind == IoKind::Other && e.message@ == text
}

/// The shell to run: that of the environment, else that of the user's record where it can be
/// read.
pub open spec fn shell_of(
    environment: Option<Seq<char>>,
    record: Option<Option<Seq<char>>>,
) -> Seq<char> {
    match (environment, record) {
        (Some(shell), _) => shell,
        (None, Some(Some(shell))) => shell,
        _ => FALLBACK_SHELL@,
    }
}

/// The shell to run: `environment` is what the environment names, `record` is the shell of the
/// user's record, where there is a record and the shell is text
pub fn choose_shell(environment: Option<String>, record: Option<Option<String>>) -> (r: String)
    ensures
        r@ == shell_of(
            option_view(environment),
            match record {
                Some(shell) => Some(option_view(shell)),
                None => None,
            },
        ),
{
    match environment {
        Some(shell) => shell,
        None => match record {
            Some(Some(shell)) => shell,
            _ => FALLBACK_SHELL.to_owned(),
        },
    }
}

impl Default for PseudoUserTerminal {
    fn default() -> (r: PseudoUserTerminal)
        ensures
            r == (PseudoUserTerminal { pid: None, master_fd: NO_SOCKET }),
    {
        PseudoUserTerminal::new()
    }
}

impl PseudoUserTerminal {
    /// Creates a new pseudo user terminal
    pub fn new() -> (r: PseudoUserTerminal)
        ensures
            r == (PseudoUserTerminal { pid: None, master_fd: NO_SOCKET }),
    {
        PseudoUserTerminal { pid: None, master_fd: NO_SOCKET }
    }

    /// Takes the process that was forked for the terminal, or the text of the error
    pub fn setup(&mut self, outcome: Result<Forked, String>) -> (r: Result<i32, IoError>)
        ensures
            match outcome {
                Ok(forked) => r == Ok::<i32, IoError>(forked.master_fd) && *final(self) == (
                PseudoUserTerminal { pid: Some(forked.pid), master_fd: forked.master_fd }),
                Err(text) => *final(self) == *old(self) && (r matches Err(e) && is_other_error(
                    e,
                    text@,
                )),
            },
    {
        match outcome {
            Ok(forked) => {
                self.pid = Some(forked.pid);
                self.master_fd = forked.master_fd;
                Ok(self.master_fd)
            },
            Err(message) => Err(IoError { kind: IoKind::Other, message }),
        }
    }

    /// Returns the descriptor that can be polled for terminal output
    pub fn get_fd(&self) -> (r: i32)
        ensures
            r == self.master_fd,
    {
        self.master_fd
    }

    /// The size that is to be set for a geometry, and the descriptor to set it on
    pub fn set_info(&self, info: &TerminalInfo) -> (r: Option<(i32, WinSize)>)
        ensures
            r == if self.master_fd < 0 {
                None
            } else {
                Some((self.master_fd, winsize_of(info@)))
            },
    {
        if self.master_fd < 0 {
            return None;
        }
        Some((self.master_fd, info.to_winsize()))
    }

    /// The process to wait for when the session ends, if there is one
    pub fn handle_session_end(&self) -> (r: Option<i32>)
        ensures
            r == self.pid,
    {
        self.pid
    }

    /// Takes the outcome of waiting for the process: whatever became of it, it has ended
    pub fn session_ended(outcome: Result<(), String>) -> (r: Result<(), IoError>)
        ensures
            match outcome {
                Ok(_) => r is Ok,
                Err(text) => r matches Err(e) && is_other_error(e, text@),
            },
    {
        match outcome {
            Ok(_) => Ok(()),
            Err(message) => Err(IoError { kind: IoKind::Other, message }),
        }
    }

    /// Gives up the terminal, and returns the descriptor to be closed
    pub fn cleanup(&mut self) -> (r: Option<i32>)
        ensures
            r == if old(self).master_fd >= 0 {
                Some(old(self).master_fd)
            } else {
                None
            },
            *final(self) == (PseudoUserTerminal {
                master_fd: if old(self).master_fd >= 0 {
                    NO_SOCKET
                } else {
                    old(self).master_fd
                },
                ..*old(self)
            }),
    {
        if self.master_fd >= 0 {
            let fd = self.master_fd;
            self.master_fd = NO_SOCKET;
            Some(fd)
        } else {
            None
        }
    }
}

/// The shell of the environment comes before that of the user's record, and where neither is known
/// it is `/bin/sh`.
pub proof fn law_shell_of_the_environment_comes_first(
    shell: Seq<char>,
    recorded: Seq<char>,
    record: Option<Option<Seq<char>>>,
)
    ensures
        shell_of(Some(shell), record) == shell,
        shell_of(None, Some(Some(recorded))) == recorded,
        shell_of(None, Some(None)) == "/bin/sh"@,
        shell_of(None, None) == "/bin/sh"@,
{
}

/// A geometry is set on the terminal of the session, and on none where there is no terminal.
pub proof fn law_geometry_is_set_on_the_terminal(
    terminal: PseudoUserTerminal,
    info: TerminalInfo,
    r: Option<(i32, WinSize)>,
)
    requires
        call_ensures(PseudoUserTerminal::set_info, (&terminal, &info), r),
    ensures
        terminal.master_fd < 0 ==> r is None,
        terminal.master_fd >= 0 ==> (r matches Some((fd, win)) && fd == terminal.master_fd && win
            == winsize_of(info@)),
{
}

} // verus!
