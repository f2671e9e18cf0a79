use et::terminal_info::{TerminalInfo, WinSize};

#[test]
fn terminal_info_test_terminal_info_default() {
    let info = TerminalInfo::new();
    assert_eq!(info.row, 0);
    assert_eq!(info.column, 0);
}

#[test]
fn terminal_info_test_terminal_info_with_size() {
    let info = TerminalInfo::with_size(24, 80);
    assert_eq!(info.row, 24);
    assert_eq!(info.column, 80);
}

#[test]
fn terminal_info_test_to_winsize() {
    let info = TerminalInfo::with_size(24, 80);
    let win = info.to_winsize();
    assert_eq!(win.ws_row, 24);
    assert_eq!(win.ws_col, 80);
}

#[test]
fn lib_test_terminal_info_default() {
    let info = TerminalInfo::new();
    assert_eq!(info.row, 0);
    assert_eq!(info.column, 0);
}

#[test]
fn lib_test_terminal_info_with_size() {
    let info = TerminalInfo::with_size(24, 80);
    assert_eq!(info.row, 24);
    assert_eq!(info.column, 80);
}

#[test]
fn lib_test_to_winsize() {
    let info = TerminalInfo::with_size(24, 80);
    let win = info.to_winsize();
    assert_eq!(win.ws_row, 24);
    assert_eq!(win.ws_col, 80);
}

#[test]
fn sizes_keep_their_low_bits() {
    let win = TerminalInfo::with_size(65536 + 24, -1).to_winsize();
    assert_eq!(win.ws_row, 24);
    assert_eq!(win.ws_col, 65535);
}

#[test]
fn a_window_size_survives() {
    let win = WinSize { ws_row: 50, ws_col: 132, ws_xpixel: 800, ws_ypixel: 600 };
    let back = TerminalInfo::from_winsize(Some(win)).to_winsize();
    assert_eq!(back.ws_row, 50);
    assert_eq!(back.ws_col, 132);
    assert_eq!(back.ws_xpixel, 800);
    assert_eq!(back.ws_ypixel, 600);
}

#[test]
fn no_window_size_means_the_usual_size() {
    assert!(TerminalInfo::from_winsize(None).same_as(&TerminalInfo::with_size(24, 80)));
    assert!(!TerminalInfo::new().same_as(&TerminalInfo::with_size(1, 0)));
}
