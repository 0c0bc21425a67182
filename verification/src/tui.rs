//! Keyboard handling of the terminal UI, and the geometry of its help
//! overlay. Terminal I/O and drawing run outside the library.
use vstd::prelude::*;

verus! {

/// No modifier key held.
pub const MOD_NONE: u8 = 0u8;

/// Shift held.
pub const MOD_SHIFT: u8 = 1u8;

/// Control held.
pub const MOD_CONTROL: u8 = 2u8;

/// The keys the UI distinguishes.
#[derive(Debug, Clone, Copy, PartialEq, Eq, Structural)]
pub enum Key {
    Char(char),
    Esc,
    Enter,
    Tab,
    BackTab,
    Up,
    Down,
    F(u8),
    Other,
}

/// A key press: the key and the set of modifiers held (as bits).
#[derive(Debug, Clone, Copy, PartialEq, Eq, Structural)]
pub struct KeyPress {
    pub modifiers: u8,
    pub key: Key,
}

/// The UI flags that key presses change.
#[derive(Debug, Clone, Copy, PartialEq, Eq, Structural)]
pub struct UiState {
    pub should_quit: bool,
    pub show_help: bool,
    pub paper_mode: bool,
    pub active_panel: u8,
}

/// The UI command a key press asks for, besides the flags it changes.
#[derive(Debug, Clone, Copy, PartialEq, Eq, Structural)]
pub enum UiCommand {
    Nothing,
    ScrollUp,
    ScrollDown,
    NextPanel,
    PrevPanel,
    OpenBuyDialog,
    OpenSellDialog,
    CancelSelected,
    CancelAll,
    HalvePosition,
    CloseFullPosition,
    ConfirmOrder,
    DismissDialog,
    TriggerDexter,
    TriggerMirofish,
    CycleConfidence,
    ToggleAutoTrade,
    ExportCsv,
    RunBacktest,
    ToggleDataSource,
    RefreshPortfolio,
}

pub open spec fn with_help(s: UiState, on: bool) -> UiState {
    UiState { show_help: on, ..s }
}

pub open spec fn with_quit(s: UiState) -> UiState {
    UiState { should_quit: true, ..s }
}

pub open spec fn with_panel(s: UiState, p: u8) -> UiState {
    UiState { active_panel: p, ..s }
}

/// The key bindings. While help is shown only Esc or `?` (with any
/// modifiers) does anything: it closes help. Otherwise each binding is an
/// exact pair of modifiers and key; Shift+Tab (BackTab) selects the
/// previous panel whatever the modifiers.
pub open spec fn key_outcome(s: UiState, p: KeyPress) -> (UiState, UiCommand) {
    let m = p.modifiers;
    if s.show_help {
        match p.key {
            Key::Esc => (with_help(s, false), UiCommand::Nothing),
            Key::Char(c) if c == '?' => (with_help(s, false), UiCommand::Nothing),
            _ => (s, UiCommand::Nothing),
        }
    } else {
        match p.key {
            Key::Char(c) => if m == MOD_NONE {
                if c == '?' {
                    (with_help(s, true), UiCommand::Nothing)
                } else if c == 'q' {
                    (with_quit(s), UiCommand::Nothing)
                } else if c == '1' {
                    (with_panel(s, 0), UiCommand::Nothing)
                } else if c == '2' {
                    (with_panel(s, 1), UiCommand::Nothing)
                } else if c == '3' {
                    (with_panel(s, 2), UiCommand::Nothing)
                } else if c == '4' {
                    (with_panel(s, 3), UiCommand::Nothing)
                } else if c == '5' {
                    (with_panel(s, 4), UiCommand::Nothing)
                } else if c == '6' {
                    (with_panel(s, 5), UiCommand::Nothing)
                } else if c == 'k' {
                    (s, UiCommand::ScrollUp)
                } else if c == 'j' {
                    (s, UiCommand::ScrollDown)
                } else if c == 'b' {
                    (s, UiCommand::OpenBuyDialog)
                } else if c == 's' {
                    (s, UiCommand::OpenSellDialog)
                } else if c == 'x' {
                    (s, UiCommand::CancelSelected)
                } else if c == 'h' {
                    (s, UiCommand::HalvePosition)
                } else if c == 'a' {
                    (s, UiCommand::TriggerDexter)
                } else if c == 'c' {
                    (s, UiCommand::CycleConfidence)
                } else {
                    (s, UiCommand::Nothing)
                }
            } else if m == MOD_CONTROL {
                if c == 'k' {
                    (with_help(s, false), UiCommand::Nothing)
                } else if c == 'p' {
                    (UiState { paper_mode: !s.paper_mode, ..s }, UiCommand::Nothing)
                } else if c == 'c' {
                    (with_quit(s), UiCommand::Nothing)
                } else if c == 'x' {
                    (s, UiCommand::CancelAll)
                } else if c == 'w' {
                    (s, UiCommand::CloseFullPosition)
                } else if c == 'a' {
                    (s, UiCommand::ToggleAutoTrade)
                } else if c == 'e' {
                    (s, UiCommand::ExportCsv)
                } else if c == 'b' {
                    (s, UiCommand::RunBacktest)
                } else if c == 'm' {
                    (s, UiCommand::ToggleDataSource)
                } else {
                    (s, UiCommand::Nothing)
                }
            } else if m == MOD_SHIFT && c == 'A' {
                (s, UiCommand::TriggerMirofish)
            } else {
                (s, UiCommand::Nothing)
            },
            Key::Up => if m == MOD_NONE {
                (s, UiCommand::ScrollUp)
            } else {
                (s, UiCommand::Nothing)
            },
            Key::Down => if m == MOD_NONE {
                (s, UiCommand::ScrollDown)
            } else {
                (s, UiCommand::Nothing)
            },
            Key::Tab => if m == MOD_NONE {
                (s, UiCommand::NextPanel)
            } else {
                (s, UiCommand::Nothing)
            },
            Key::BackTab => (s, UiCommand::PrevPanel),
            Key::Enter => if m == MOD_NONE {
                (s, UiCommand::ConfirmOrder)
            } else {
                (s, UiCommand::Nothing)
            },
            Key::Esc => if m == MOD_NONE {
                (s, UiCommand::DismissDialog)
            } else {
                (s, UiCommand::Nothing)
            },
            Key::F(n) => if m == MOD_NONE && n == 5 {
                (s, UiCommand::RefreshPortfolio)
            } else {
                (s, UiCommand::Nothing)
            },
            Key::Other => (s, UiCommand::Nothing),
        }
    }
}

/// Applies a key press: updates the flags and returns the command.
pub fn handle_key(state: &mut UiState, press: KeyPress) -> (cmd: UiCommand)
    ensures
        (*final(state), cmd) == key_outcome(*old(state), press),
{
    let m = press.modifiers;
    if state.show_help {
        match press.key {
            Key::Esc => state.show_help = false,
            Key::Char(c) => {
                if c == '?' {
                    state.show_help = false;
                }
            },
            _ => {},
        }
        return UiCommand::Nothing;
    }
    match press.key {
        Key::Char(c) => {
            if m == MOD_NONE {
                if c == '?' {
                    state.show_help = true;
                    UiCommand::Nothing
                } else if c == 'q' {
                    state.should_quit = true;
                    UiCommand::Nothing
                } else if c == '1' {
                    state.active_panel = 0;
                    UiCommand::Nothing
                } else if c == '2' {
                    state.active_panel = 1;
                    UiCommand::Nothing
                } else if c == '3' {
                    state.active_panel = 2;
                    UiCommand::Nothing
                } else if c == '4' {
                    state.active_panel = 3;
                    UiCommand::Nothing
                } else if c == '5' {
                    state.active_panel = 4;
                    UiCommand::Nothing
                } else if c == '6' {
                    state.active_panel = 5;
                    UiCommand::Nothing
                } else if c == 'k' {
                    UiCommand::ScrollUp
                } else if c == 'j' {
                    UiCommand::ScrollDown
                } else if c == 'b' {
                    UiCommand::OpenBuyDialog
                } else if c == 's' {
                    UiCommand::OpenSellDialog
                } else if c == 'x' {
                    UiCommand::CancelSelected
                } else if c == 'h' {
                    UiCommand::HalvePosition
                } else if c == 'a' {
                    UiCommand::TriggerDexter
                } else if c == 'c' {
                    UiCommand::CycleConfidence
                } else {
                    UiCommand::Nothing
                }
            } else if m == MOD_CONTROL {
                if c == 'k' {
                    state.show_help = false;
                    UiCommand::Nothing
                } else if c == 'p' {
                    state.paper_mode = !state.paper_mode;
                    UiCommand::Nothing
                } else if c == 'c' {
                    state.should_quit = true;
                    UiCommand::Nothing
                } else if c == 'x' {
                    UiCommand::CancelAll
                } else if c == 'w' {
                    UiCommand::CloseFullPosition
                } else if c == 'a' {
                    UiCommand::ToggleAutoTrade
                } else if c == 'e' {
                    UiCommand::ExportCsv
                } else if c == 'b' {
                    UiCommand::RunBacktest
                } else if c == 'm' {
                    UiCommand::ToggleDataSource
                } else {
                    UiCommand::Nothing
                }
            } else if m == MOD_SHIFT && c == 'A' {
                UiCommand::TriggerMirofish
            } else {
                UiCommand::Nothing
            }
        },
        Key::Up => {
            if m == MOD_NONE {
                UiCommand::ScrollUp
            } else {
                UiCommand::Nothing
            }
        },
        Key::Down => {
            if m == MOD_NONE {
                UiCommand::ScrollDown
            } else {
                UiCommand::Nothing
            }
        },
        Key::Tab => {
            if m == MOD_NONE {
                UiCommand::NextPanel
            } else {
                UiCommand::Nothing
            }
        },
        Key::BackTab => UiCommand::PrevPanel,
        Key::Enter => {
            if m == MOD_NONE {
                UiCommand::ConfirmOrder
            } else {
                UiCommand::Nothing
            }
        },
        Key::Esc => {
            if m == MOD_NONE {
                UiCommand::DismissDialog
            } else {
                UiCommand::Nothing
            }
        },
        Key::F(n) => {
            if m == MOD_NONE && n == 5 {
                UiCommand::RefreshPortfolio
            } else {
                UiCommand::Nothing
            }
        },
        Key::Other => UiCommand::Nothing,
    }
}

/// While help is shown, no key quits, trades, or does anything but close
/// help; and Esc or `?` always closes it.
pub proof fn law_help_swallows_keys(s: UiState, p: KeyPress)
    requires
        s.show_help,
    ensures
        key_outcome(s, p).1 == UiCommand::Nothing,
        key_outcome(s, p).0.should_quit == s.should_quit,
        key_outcome(s, p).0.paper_mode == s.paper_mode,
        key_outcome(s, p).0.active_panel == s.active_panel,
        (p.key == Key::Esc || p.key == Key::Char('?')) ==> !key_outcome(s, p).0.show_help,
{
}

/// The key press of key `key` with modifier bits `modifiers`.
pub open spec fn press(modifiers: u8, key: Key) -> KeyPress {
    KeyPress { modifiers, key }
}

/// The UI flags with these values.
pub open spec fn flags(should_quit: bool, show_help: bool, paper_mode: bool, active_panel: u8) -> UiState {
    UiState { should_quit, show_help, paper_mode, active_panel }
}

/// The key bindings with help closed: `?` opens help; Ctrl+K closes it;
/// Ctrl+P toggles paper mode; `q` and Ctrl+C quit; `1` to `6` focus panels
/// 0 to 5; and each trading, navigation, AI and data key asks for its
/// command and leaves the flags as they were (Shift+Tab with any
/// modifiers selects the previous panel).
pub proof fn law_key_bindings(s: UiState, m: u8)
    requires
        !s.show_help,
    ensures
        key_outcome(s, press(MOD_NONE, Key::Char('?'))) == (flags(s.should_quit, true, s.paper_mode, s.active_panel), UiCommand::Nothing),
        key_outcome(s, press(MOD_CONTROL, Key::Char('k'))) == (s, UiCommand::Nothing),
        key_outcome(s, press(MOD_CONTROL, Key::Char('p'))) == (flags(s.should_quit, false, !s.paper_mode, s.active_panel), UiCommand::Nothing),
        key_outcome(s, press(MOD_CONTROL, Key::Char('c'))) == (flags(true, false, s.paper_mode, s.active_panel), UiCommand::Nothing),
        key_outcome(s, press(MOD_NONE, Key::Char('q'))) == (flags(true, false, s.paper_mode, s.active_panel), UiCommand::Nothing),
        key_outcome(s, press(MOD_NONE, Key::Char('1'))) == (flags(s.should_quit, false, s.paper_mode, 0), UiCommand::Nothing),
        key_outcome(s, press(MOD_NONE, Key::Char('2'))) == (flags(s.should_quit, false, s.paper_mode, 1), UiCommand::Nothing),
        key_outcome(s, press(MOD_NONE, Key::Char('3'))) == (flags(s.should_quit, false, s.paper_mode, 2), UiCommand::Nothing),
        key_outcome(s, press(MOD_NONE, Key::Char('4'))) == (flags(s.should_quit, false, s.paper_mode, 3), UiCommand::Nothing),
        key_outcome(s, press(MOD_NONE, Key::Char('5'))) == (flags(s.should_quit, false, s.paper_mode, 4), UiCommand::Nothing),
        key_outcome(s, press(MOD_NONE, Key::Char('6'))) == (flags(s.should_quit, false, s.paper_mode, 5), UiCommand::Nothing),
        key_outcome(s, press(MOD_NONE, Key::Char('k'))) == (s, UiCommand::ScrollUp),
        key_outcome(s, press(MOD_NONE, Key::Up)) == (s, UiCommand::ScrollUp),
        key_outcome(s, press(MOD_NONE, Key::Char('j'))) == (s, UiCommand::ScrollDown),
        key_outcome(s, press(MOD_NONE, Key::Down)) == (s, UiCommand::ScrollDown),
        key_outcome(s, press(MOD_NONE, Key::Tab)) == (s, UiCommand::NextPanel),
        key_outcome(s, press(MOD_CONTROL, Key::Char('x'))) == (s, UiCommand::CancelAll),
        key_outcome(s, press(MOD_CONTROL, Key::Char('w'))) == (s, UiCommand::CloseFullPosition),
        key_outcome(s, press(MOD_NONE, Key::Char('b'))) == (s, UiCommand::OpenBuyDialog),
        key_outcome(s, press(MOD_NONE, Key::Char('s'))) == (s, UiCommand::OpenSellDialog),
        key_outcome(s, press(MOD_NONE, Key::Char('x'))) == (s, UiCommand::CancelSelected),
        key_outcome(s, press(MOD_NONE, Key::Char('h'))) == (s, UiCommand::HalvePosition),
        key_outcome(s, press(MOD_NONE, Key::Enter)) == (s, UiCommand::ConfirmOrder),
        key_outcome(s, press(MOD_NONE, Key::Esc)) == (s, UiCommand::DismissDialog),
        key_outcome(s, press(MOD_CONTROL, Key::Char('a'))) == (s, UiCommand::ToggleAutoTrade),
        key_outcome(s, press(MOD_SHIFT, Key::Char('A'))) == (s, UiCommand::TriggerMirofish),
        key_outcome(s, press(MOD_NONE, Key::Char('a'))) == (s, UiCommand::TriggerDexter),
        key_outcome(s, press(MOD_NONE, Key::Char('c'))) == (s, UiCommand::CycleConfidence),
        key_outcome(s, press(MOD_CONTROL, Key::Char('e'))) == (s, UiCommand::ExportCsv),
        key_outcome(s, press(MOD_CONTROL, Key::Char('b'))) == (s, UiCommand::RunBacktest),
        key_outcome(s, press(MOD_CONTROL, Key::Char('m'))) == (s, UiCommand::ToggleDataSource),
        key_outcome(s, press(MOD_NONE, Key::F(5))) == (s, UiCommand::RefreshPortfolio),
        key_outcome(s, press(m, Key::BackTab)) == (s, UiCommand::PrevPanel),
{
}

/// Each command comes from its own keys only (Ctrl+W alone closes the full
/// position, `h` alone halves it, `b` alone opens the buy dialog, and so
/// on), and a key that asks for a command changes no flag.
pub proof fn law_commands_come_from_their_keys(s: UiState, p: KeyPress)
    ensures
        key_outcome(s, p).1 == UiCommand::ScrollUp ==> p == press(MOD_NONE, Key::Char('k')) || p == press(MOD_NONE, Key::Up),
        key_outcome(s, p).1 == UiCommand::ScrollDown ==> p == press(MOD_NONE, Key::Char('j')) || p == press(MOD_NONE, Key::Down),
        key_outcome(s, p).1 == UiCommand::NextPanel ==> p == press(MOD_NONE, Key::Tab),
        key_outcome(s, p).1 == UiCommand::CancelAll ==> p == press(MOD_CONTROL, Key::Char('x')),
        key_outcome(s, p).1 == UiCommand::CloseFullPosition ==> p == press(MOD_CONTROL, Key::Char('w')),
        key_outcome(s, p).1 == UiCommand::OpenBuyDialog ==> p == press(MOD_NONE, Key::Char('b')),
        key_outcome(s, p).1 == UiCommand::OpenSellDialog ==> p == press(MOD_NONE, Key::Char('s')),
        key_outcome(s, p).1 == UiCommand::CancelSelected ==> p == press(MOD_NONE, Key::Char('x')),
        key_outcome(s, p).1 == UiCommand::HalvePosition ==> p == press(MOD_NONE, Key::Char('h')),
        key_outcome(s, p).1 == UiCommand::ConfirmOrder ==> p == press(MOD_NONE, Key::Enter),
        key_outcome(s, p).1 == UiCommand::DismissDialog ==> p == press(MOD_NONE, Key::Esc),
        key_outcome(s, p).1 == UiCommand::ToggleAutoTrade ==> p == press(MOD_CONTROL, Key::Char('a')),
        key_outcome(s, p).1 == UiCommand::TriggerMirofish ==> p == press(MOD_SHIFT, Key::Char('A')),
        key_outcome(s, p).1 == UiCommand::TriggerDexter ==> p == press(MOD_NONE, Key::Char('a')),
        key_outcome(s, p).1 == UiCommand::CycleConfidence ==> p == press(MOD_NONE, Key::Char('c')),
        key_outcome(s, p).1 == UiCommand::ExportCsv ==> p == press(MOD_CONTROL, Key::Char('e')),
        key_outcome(s, p).1 == UiCommand::RunBacktest ==> p == press(MOD_CONTROL, Key::Char('b')),
        key_outcome(s, p).1 == UiCommand::ToggleDataSource ==> p == press(MOD_CONTROL, Key::Char('m')),
        key_outcome(s, p).1 == UiCommand::RefreshPortfolio ==> p == press(MOD_NONE, Key::F(5)),
        key_outcome(s, p).1 == UiCommand::PrevPanel ==> p.key == Key::BackTab,
        key_outcome(s, p).1 != UiCommand::Nothing ==> key_outcome(s, p).0 == s,
{
}

/// A screen rectangle in terminal cells.
#[derive(Debug, Clone, Copy, PartialEq, Eq, Structural)]
pub struct Area {
    pub x: u16,
    pub y: u16,
    pub width: u16,
    pub height: u16,
}

/// The rectangle of `percent_x` by `percent_y` percent of `r`, centred in
/// it (sizes rounded down, offsets rounded down).
pub open spec fn centered(percent_x: u16, percent_y: u16, r: Area) -> Area {
    let w = r.width * percent_x / 100;
    let h = r.height * percent_y / 100;
    Area {
        x: (r.x + (r.width - w) / 2) as u16,
        y: (r.y + (r.height - h) / 2) as u16,
        width: w as u16,
        height: h as u16,
    }
}

/// Every intermediate value of the computation fits in `u16` (else its
/// arithmetic overflows): the products, the margins (no wider than `r`)
/// and the offsets.
pub open spec fn fits_centered(percent_x: u16, percent_y: u16, r: Area) -> bool {
    &&& r.width * percent_x <= u16::MAX
    &&& r.width * percent_x / 100 <= r.width
    &&& r.height * percent_y / 100 <= r.height
    &&& r.height * percent_y <= u16::MAX
    &&& r.x + (r.width - r.width * percent_x / 100) / 2 <= u16::MAX
    &&& r.y + (r.height - r.height * percent_y / 100) / 2 <= u16::MAX
}

/// Whether `centered_rect` can be computed for these arguments.
pub fn can_center(percent_x: u16, percent_y: u16, r: Area) -> (ok: bool)
    ensures
        ok == fits_centered(percent_x, percent_y, r),
{
    assert(r.width * percent_x <= u16::MAX * u16::MAX) by (nonlinear_arith);
    assert(r.height * percent_y <= u16::MAX * u16::MAX) by (nonlinear_arith);
    let wx: u32 = r.width as u32 * percent_x as u32;
    let hy: u32 = r.height as u32 * percent_y as u32;
    if wx > 65535 || hy > 65535 {
        return false;
    }
    let w: u32 = wx / 100;
    let h: u32 = hy / 100;
    w <= r.width as u32 && h <= r.height as u32
        && r.x as u32 + (r.width as u32 - w) / 2 <= 65535
        && r.y as u32 + (r.height as u32 - h) / 2 <= 65535
}

/// Carves out a centred rectangle of the given percentages of `r`.
pub fn centered_rect(percent_x: u16, percent_y: u16, r: Area) -> (c: Area)
    requires
        fits_centered(percent_x, percent_y, r),
    ensures
        c == centered(percent_x, percent_y, r),
        c.x + c.width <= r.x + r.width,
        c.y + c.height <= r.y + r.height,
        r.x <= c.x,
        r.y <= c.y,
{
    let popup_width = r.width * percent_x / 100;
    let popup_height = r.height * percent_y / 100;
    Area {
        x: r.x + (r.width - popup_width) / 2,
        y: r.y + (r.height - popup_height) / 2,
        width: popup_width,
        height: popup_height,
    }
}

} // verus!
