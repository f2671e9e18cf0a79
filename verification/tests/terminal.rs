use et::console::PseudoTerminalConsole;
use et::error::{IoError, IoKind};
use et::pty::{choose_shell, Forked, PseudoUserTerminal};
use et::relay::{Relay, RelayEvent, RelayPoll, RelayStep};
use et::terminal_info::TerminalInfo;

fn io(kind: IoKind) -> IoError {
    IoError { kind, message: "text".to_string() }
}

#[test]
fn test_pseudo_user_terminal_new() {
    let terminal = PseudoUserTerminal::new();
    assert!(terminal.pid.is_none());
    assert_eq!(terminal.master_fd, -1);
}

#[test]
fn a_terminal_lives_from_setup_to_cleanup() {
    let mut terminal = PseudoUserTerminal::default();
    assert!(terminal.set_info(&TerminalInfo::with_size(1, 2)).is_none());
    assert_eq!(terminal.handle_session_end(), None);
    let error = terminal.setup(Err("no pty".to_string())).err().unwrap();
    assert_eq!(error.message, "no pty");
    assert_eq!(terminal.setup(Ok(Forked { pid: 99, master_fd: 4 })).unwrap(), 4);
    assert_eq!(terminal.get_fd(), 4);
    let (fd, size) = terminal.set_info(&TerminalInfo::with_size(1, 2)).unwrap();
    assert_eq!((fd, size.ws_row, size.ws_col), (4, 1, 2));
    assert_eq!(terminal.handle_session_end(), Some(99));
    assert_eq!(terminal.cleanup(), Some(4));
    assert_eq!(terminal.cleanup(), None);
    assert_eq!(terminal.get_fd(), -1);
    assert!(PseudoUserTerminal::session_ended(Ok(())).is_ok());
    assert_eq!(PseudoUserTerminal::session_ended(Err("gone".to_string())).err().unwrap().message, "gone");
}

#[test]
fn the_environment_chooses_the_shell_first() {
    let named = Some("/bin/zsh".to_string());
    let recorded = Some(Some("/bin/bash".to_string()));
    assert_eq!(choose_shell(named, recorded.clone()), "/bin/zsh");
    assert_eq!(choose_shell(None, recorded), "/bin/bash");
    assert_eq!(choose_shell(None, Some(None)), "/bin/sh");
    assert_eq!(choose_shell(None, None), "/bin/sh");
}

#[test]
fn a_console_is_restored_to_what_it_was() {
    let mut console = PseudoTerminalConsole::new(Ok("first")).unwrap();
    assert!(!console.teardown());
    assert_eq!(console.backup(), None);
    assert!(console.setup());
    assert!(console.settings_read(Err(io(IoKind::Other))).is_err());
    assert!(console.settings_read(Ok("second")).is_ok());
    assert!(console.raw_mode_set(Err(io(IoKind::Other))).is_err());
    assert!(console.setup());
    assert!(console.raw_mode_set(Ok(())).is_ok());
    assert!(!console.setup());
    assert!(console.teardown());
    assert_eq!(console.backup(), Some(&"second"));
    assert!(console.restored(Err(io(IoKind::Other))).is_err());
    assert!(console.teardown());
    assert!(console.restored(Ok(())).is_ok());
    assert!(!console.teardown());
    let failed: Result<PseudoTerminalConsole<u8>, IoError> = PseudoTerminalConsole::new(Err(io(IoKind::Other)));
    assert!(failed.is_err());
}

#[test]
fn the_relay_passes_data_both_ways() {
    let (mut relay, step) = Relay::begin();
    assert_eq!(step, RelayStep::Poll { millis: 100 });
    let both = RelayPoll { input: true, terminal: true, hangup: false };
    assert_eq!(relay.step(RelayEvent::Polled(Some(both))).step, RelayStep::ReadInput { count: 16384 });
    let turn = relay.step(RelayEvent::InputRead(Ok(b"in".to_vec())));
    assert_eq!(turn.to_terminal, Some(b"in".to_vec()));
    assert_eq!(turn.step, RelayStep::ReadTerminal { count: 16384 });
    let turn = relay.step(RelayEvent::TerminalRead(Ok(b"out".to_vec())));
    assert_eq!(turn.to_output, Some(b"out".to_vec()));
    assert_eq!(turn.step, RelayStep::Poll { millis: 100 });
    assert_eq!(relay.step(RelayEvent::Polled(None)).step, RelayStep::Poll { millis: 100 });
}

#[test]
fn the_relay_ends_with_either_side() {
    let input = RelayPoll { input: true, terminal: false, hangup: false };
    for (outcome, ends) in [
        (Ok(vec![]), true),
        (Err(io(IoKind::Other)), true),
        (Err(io(IoKind::WouldBlock)), false),
    ] {
        let (mut relay, _) = Relay::begin();
        let _ = relay.step(RelayEvent::Polled(Some(input)));
        let turn = relay.step(RelayEvent::InputRead(outcome));
        assert!(turn.to_terminal.is_none());
        assert_eq!(turn.step == RelayStep::Finished, ends);
    }
    let (mut relay, _) = Relay::begin();
    let hangup = RelayPoll { input: false, terminal: true, hangup: true };
    let _ = relay.step(RelayEvent::Polled(Some(hangup)));
    let turn = relay.step(RelayEvent::TerminalRead(Ok(b"last".to_vec())));
    assert_eq!(turn.to_output, Some(b"last".to_vec()));
    assert_eq!(turn.step, RelayStep::Finished);
}
