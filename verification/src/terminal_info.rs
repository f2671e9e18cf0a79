//! Terminal information (size, pixels, etc.)
use vstd::prelude::*;

verus! {

/// Terminal dimensions and metadata
#[derive(Debug)]
pub struct TerminalInfo {
    /// Unique identifier for the terminal
    pub id: String,
    /// Number of rows
    pub row: i32,
    /// Number of columns
    pub column: i32,
    /// Width in pixels
    pub width: i32,
    /// Height in pixels
    pub height: i32,
}

/// What a [`TerminalInfo`] holds.
pub struct TerminalInfoView {
    pub id: Seq<char>,
    pub row: i32,
    pub column: i32,
    pub width: i32,
    pub height: i32,
}

impl View for TerminalInfo {
    type V = TerminalInfoView;

    open spec fn view(&self) -> TerminalInfoView {
        TerminalInfoView {
            id: self.id@,
            row: self.row,
            column: self.column,
            width: self.width,
            height: self.height,
        }
    }
}

/// The size of a terminal as the operating system keeps it
#[derive(Debug, Clone, Copy, PartialEq, Eq, Structural)]
pub struct WinSize {
    /// Number of rows
    pub ws_row: u16,
    /// Number of columns
    pub ws_col: u16,
    /// Width in pixels
    pub ws_xpixel: u16,
    /// Height in pixels
    pub ws_ypixel: u16,
}

impl TerminalInfoView {
    /// No identifier and a size in rows and columns only.
    pub open spec fn sized(row: i32, column: i32) -> TerminalInfoView {
        TerminalInfoView { id: Seq::empty(), row, column, width: 0, height: 0 }
    }
}

/// The low sixteen bits of `n`.
pub open spec fn low16(n: i32) -> int {
    n as int % 0x1_0000
}

/// The terminal info for what the operating system says of a file descriptor: 24 rows and 80
/// columns where it says nothing.
pub open spec fn info_of(win: Option<WinSize>) -> TerminalInfoView {
    match win {
        Some(win) => TerminalInfoView {
            id: Seq::empty(),
            row: win.ws_row as i32,
            column: win.ws_col as i32,
            width: win.ws_xpixel as i32,
            height: win.ws_ypixel as i32,
        },
        None => TerminalInfoView::sized(24, 80),
    }
}

/// The size that the operating system is to keep for a terminal info: of each number the low
/// sixteen bits.
pub open spec fn winsize_of(info: TerminalInfoView) -> WinSize {
    WinSize {
        ws_row: low16(info.row) as u16,
        ws_col: low16(info.column) as u16,
        ws_xpixel: low16(info.width) as u16,
        ws_ypixel: low16(info.height) as u16,
    }
}

/// The low sixteen bits of `n`
pub fn truncate16(n: i32) -> (r: u16)
    ensures
        r == low16(n),
{
    let wide: i64 = n as i64;
    let positive: i64 = if wide < 0 {
        wide + 0x1_0000_0000
    } else {
        wide
    };
    (positive % 0x1_0000) as u16
}

impl Default for TerminalInfo {
    fn default() -> (r: TerminalInfo)
        ensures
            r@ == TerminalInfoView::sized(0, 0),
    {
        TerminalInfo { id: String::new(), row: 0, column: 0, width: 0, height: 0 }
    }
}

impl Clone for TerminalInfo {
    fn clone(&self) -> (r: TerminalInfo)
        ensures
            r@ == self@,
    {
        TerminalInfo {
            id: self.id.clone(),
            row: self.row,
            column: self.column,
            width: self.width,
            height: self.height,
        }
    }
}

impl TerminalInfo {
    /// Creates a new empty terminal info
    pub fn new() -> (r: TerminalInfo)
        ensures
            r@ == TerminalInfoView::sized(0, 0),
    {
        TerminalInfo::default()
    }

    /// Creates terminal info with dimensions
    pub fn with_size(row: i32, column: i32) -> (r: TerminalInfo)
        ensures
            r@ == TerminalInfoView::sized(row, column),
    {
        TerminalInfo { id: String::new(), row, column, width: 0, height: 0 }
    }

    /// Terminal info from what the operating system says of a file descriptor. Where it says
    /// nothing, the size is 24 rows and 80 columns.
    pub fn from_winsize(win: Option<WinSize>) -> (r: TerminalInfo)
        ensures
            r@ == info_of(win),
    {
        match win {
            Some(win) => TerminalInfo {
                id: String::new(),
                row: win.ws_row as i32,
                column: win.ws_col as i32,
                width: win.ws_xpixel as i32,
                height: win.ws_ypixel as i32,
            },
            None => TerminalInfo::with_size(24, 80),
        }
    }

    /// Convert to the form in which the operating system keeps the size. Of each number the low
    /// sixteen bits are kept.
    pub fn to_winsize(&self) -> (r: WinSize)
        ensures
            r == winsize_of(self@),
    {
        WinSize {
            ws_row: truncate16(self.row),
            ws_col: truncate16(self.column),
            ws_xpixel: truncate16(self.width),
            ws_ypixel: truncate16(self.height),
        }
    }

    /// Tells whether two terminal infos are the same
    pub fn same_as(&self, other: &TerminalInfo) -> (r: bool)
        ensures
            r == (self@ == other@),
    {
        self.id == other.id && self.row == other.row && self.column == other.column && self.width
            == other.width && self.height == other.height
    }
}

/// A size that the operating system gave is handed back to it unchanged.
pub proof fn law_winsize_round_trip(win: WinSize)
    ensures
        winsize_of(info_of(Some(win))) == win,
{
}

/// Of each number of a geometry the operating system keeps what sixteen bits hold: a number that
/// fits is kept as it is, and any other differs from what is kept by a multiple of 65536.
pub proof fn law_geometry_is_kept_in_sixteen_bits(info: TerminalInfoView, n: i32)
    ensures
        0 <= low16(n) < 65536,
        (n - low16(n)) % 65536 == 0,
        0 <= n < 65536 ==> low16(n) == n,
        ({
            let win = winsize_of(info);
            &&& 0 <= info.row < 65536 ==> win.ws_row == info.row
            &&& 0 <= info.column < 65536 ==> win.ws_col == info.column
            &&& 0 <= info.width < 65536 ==> win.ws_xpixel == info.width
            &&& 0 <= info.height < 65536 ==> win.ws_ypixel == info.height
        }),
{
}

/// A terminal has the size that the operating system gives for it, and 24 rows and 80 columns
/// where it gives none; it has no identifier yet.
pub proof fn law_terminal_has_the_size_given(win: Option<WinSize>)
    ensures
        ({
            let info = info_of(win);
            &&& info.id.len() == 0
            &&& win matches Some(size) ==> info.row == size.ws_row && info.column == size.ws_col
                && info.width == size.ws_xpixel && info.height == size.ws_ypixel
            &&& win is None ==> info.row == 24 && info.column == 80 && info.width == 0
                && info.height == 0
        }),
{
}

} // verus!
