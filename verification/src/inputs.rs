//! Keyboard and mouse input: what a key sends to a process running in a
//! pane, and what keys and clicks do to the dashboard.
use vstd::prelude::*;
use crate::dashboard::{focus_valid, pane_index, pane_views, room_for, top_has_room, DashView, DashboardState};
use crate::layouts::{contains_cell, PaneGeometry, PaneTarget, RectHitTest};
use crate::panes::{
    sat_sub, scrolled_down, scrolled_up, LogMode, Notice, PaneView, ProcessPane, ProcessState, Tone,
};
use crate::schema::PaneMode;
use crate::text::{ascii_lower, owned};

verus! {

/// A key of the keyboard.
#[derive(Debug, Clone, Copy, PartialEq, Eq, Structural)]
pub enum KeyCode {
    Backspace,
    Enter,
    Left,
    Right,
    Up,
    Down,
    Home,
    End,
    PageUp,
    PageDown,
    Tab,
    BackTab,
    Delete,
    Insert,
    F(u8),
    Char(char),
    Null,
    Esc,
    /// Any other key (lock keys, media keys, lone modifiers, ...).
    Other,
}

/// Modifier keys held with a key.
#[derive(Debug, Clone, Copy, PartialEq, Eq, Structural)]
pub struct KeyModifiers {
    pub shift: bool,
    pub control: bool,
    pub alt: bool,
}

impl KeyModifiers {
    /// No modifier.
    pub fn none() -> (m: KeyModifiers)
        ensures
            !m.shift && !m.control && !m.alt,
    {
        KeyModifiers { shift: false, control: false, alt: false }
    }
}

/// Whether a key went down, repeats or went up.
#[derive(Debug, Clone, Copy, PartialEq, Eq, Structural)]
pub enum KeyEventKind {
    Press,
    Repeat,
    Release,
}

/// A key event.
#[derive(Debug, Clone, Copy, PartialEq, Eq, Structural)]
pub struct KeyEvent {
    pub code: KeyCode,
    pub modifiers: KeyModifiers,
    pub kind: KeyEventKind,
}

impl KeyEvent {
    /// A key press.
    pub fn new(code: KeyCode, modifiers: KeyModifiers) -> (k: KeyEvent)
        ensures
            k == (KeyEvent { code, modifiers, kind: KeyEventKind::Press }),
    {
        KeyEvent { code, modifiers, kind: KeyEventKind::Press }
    }
}

/// The UTF-8 encoding of `c`.
pub open spec fn utf8_of(c: char) -> Seq<u8> {
    let v = c as u32;
    if v < 0x80 {
        seq![v as u8]
    } else if v < 0x800 {
        seq![(0xC0 + v / 64) as u8, (0x80 + v % 64) as u8]
    } else if v < 0x10000 {
        seq![(0xE0 + v / 4096) as u8, (0x80 + (v / 64) % 64) as u8, (0x80 + v % 64) as u8]
    } else {
        seq![
            (0xF0 + v / 262144) as u8,
            (0x80 + (v / 4096) % 64) as u8,
            (0x80 + (v / 64) % 64) as u8,
            (0x80 + v % 64) as u8,
        ]
    }
}

/// The xterm modifier parameter: 1 plus 1 for shift, 2 for alt and 4 for
/// control.
pub open spec fn modifier_param(m: KeyModifiers) -> u8 {
    (1 + (if m.shift {
        1int
    } else {
        0
    }) + (if m.alt {
        2int
    } else {
        0
    }) + (if m.control {
        4int
    } else {
        0
    })) as u8
}

/// The ASCII digit of `d`.
pub open spec fn digit(d: int) -> u8 {
    (48 + d) as u8
}

/// The decimal digits of `n` (below 100).
pub open spec fn decimal(n: u8) -> Seq<u8> {
    if n < 10 {
        seq![digit(n as int)]
    } else {
        seq![digit((n / 10) as int), digit((n % 10) as int)]
    }
}

/// A cursor key: `ESC [ 1 ; m x` with modifiers, else `ESC O x` in
/// application cursor mode, else `ESC [ x`.
pub open spec fn csi_bytes(param: u8, application_cursor: bool, final_byte: u8) -> Seq<u8> {
    if param > 1 {
        seq![0x1bu8, 0x5bu8, 0x31u8, 0x3bu8, digit(param as int), final_byte]
    } else if application_cursor {
        seq![0x1bu8, 0x4fu8, final_byte]
    } else {
        seq![0x1bu8, 0x5bu8, final_byte]
    }
}

/// An editing or function key: `ESC [ n ; m ~` with modifiers, else
/// `ESC [ n ~`.
pub open spec fn tilde_bytes(param: u8, number: u8) -> Seq<u8> {
    if param > 1 {
        seq![0x1bu8, 0x5bu8] + decimal(number) + seq![0x3bu8, digit(param as int), 0x7eu8]
    } else {
        seq![0x1bu8, 0x5bu8] + decimal(number) + seq![0x7eu8]
    }
}

/// The number of function keys F5 to F12 in their escape sequence.
pub open spec fn function_key_number(n: u8) -> u8 {
    if n == 5 {
        15
    } else if n == 6 {
        17
    } else if n == 7 {
        18
    } else if n == 8 {
        19
    } else if n == 9 {
        20
    } else if n == 10 {
        21
    } else if n == 11 {
        23
    } else {
        24
    }
}

/// What control plus `c` sends: the C0 control code of a letter or of the
/// usual punctuation and digit aliases, else `c` itself.
pub open spec fn ctrl_bytes(c: char) -> Seq<u8> {
    let lower = ascii_lower(c);
    if 'a' <= lower <= 'z' {
        seq![(lower as u32 - 96) as u8]
    } else if lower == ' ' || lower == '@' || lower == '2' {
        seq![0u8]
    } else if lower == '[' || lower == '3' {
        seq![0x1bu8]
    } else if lower == '\\' || lower == '4' {
        seq![0x1cu8]
    } else if lower == ']' || lower == '5' {
        seq![0x1du8]
    } else if lower == '^' || lower == '6' {
        seq![0x1eu8]
    } else if lower == '_' || lower == '7' || lower == '/' {
        seq![0x1fu8]
    } else if lower == '?' || lower == '8' {
        seq![0x7fu8]
    } else {
        utf8_of(c)
    }
}

/// The bytes of a key before an alt prefix.
pub open spec fn base_key_bytes(key: KeyEvent, application_cursor: bool) -> Seq<u8> {
    let m = key.modifiers;
    let param = modifier_param(m);
    match key.code {
        KeyCode::Char(c) => if m.control {
            ctrl_bytes(c)
        } else {
            utf8_of(c)
        },
        KeyCode::Enter => seq![0x0du8],
        KeyCode::Esc => seq![0x1bu8],
        KeyCode::Backspace => seq![0x7fu8],
        KeyCode::Tab => seq![0x09u8],
        KeyCode::BackTab => seq![0x1bu8, 0x5bu8, 0x5au8],
        KeyCode::Null => seq![0u8],
        KeyCode::Up => csi_bytes(param, application_cursor, 0x41),
        KeyCode::Down => csi_bytes(param, application_cursor, 0x42),
        KeyCode::Right => csi_bytes(param, application_cursor, 0x43),
        KeyCode::Left => csi_bytes(param, application_cursor, 0x44),
        KeyCode::Home => csi_bytes(param, application_cursor, 0x48),
        KeyCode::End => csi_bytes(param, application_cursor, 0x46),
        KeyCode::Insert => tilde_bytes(param, 2),
        KeyCode::Delete => tilde_bytes(param, 3),
        KeyCode::PageUp => tilde_bytes(param, 5),
        KeyCode::PageDown => tilde_bytes(param, 6),
        KeyCode::F(n) => if 1 <= n <= 4 {
            if param > 1 {
                seq![0x1bu8, 0x5bu8, 0x31u8, 0x3bu8, digit(param as int), (0x50 + n - 1) as u8]
            } else {
                seq![0x1bu8, 0x4fu8, (0x50 + n - 1) as u8]
            }
        } else if 5 <= n <= 12 {
            tilde_bytes(param, function_key_number(n))
        } else {
            Seq::empty()
        },
        KeyCode::Other => Seq::empty(),
    }
}

/// The bytes a terminal sends for `key`: alt with a character, Enter or
/// Backspace sends an escape first.
pub open spec fn key_bytes(key: KeyEvent, application_cursor: bool) -> Seq<u8> {
    let b = base_key_bytes(key, application_cursor);
    if key.modifiers.alt && (key.code is Char || key.code is Enter || key.code is Backspace) {
        seq![0x1bu8] + b
    } else {
        b
    }
}

fn utf8_bytes(c: char) -> (r: Vec<u8>)
    ensures
        r@ == utf8_of(c),
{
    let v = c as u32;
    let mut r: Vec<u8> = Vec::new();
    if v < 0x80 {
        r.push(v as u8);
    } else if v < 0x800 {
        r.push((0xC0 + v / 64) as u8);
        r.push((0x80 + v % 64) as u8);
    } else if v < 0x10000 {
        r.push((0xE0 + v / 4096) as u8);
        r.push((0x80 + (v / 64) % 64) as u8);
        r.push((0x80 + v % 64) as u8);
    } else {
        r.push((0xF0 + v / 262144) as u8);
        r.push((0x80 + (v / 4096) % 64) as u8);
        r.push((0x80 + (v / 64) % 64) as u8);
        r.push((0x80 + v % 64) as u8);
    }
    assert(r@ =~= utf8_of(c));
    r
}

fn one_byte(b: u8) -> (r: Vec<u8>)
    ensures
        r@ == seq![b],
{
    let mut r: Vec<u8> = Vec::new();
    r.push(b);
    assert(r@ =~= seq![b]);
    r
}

fn ctrl_key_bytes(c: char) -> (r: Vec<u8>)
    ensures
        r@ == ctrl_bytes(c),
{
    let lower = if 'A' <= c && c <= 'Z' {
        ((c as u8) + 32) as char
    } else {
        c
    };
    assert(lower == ascii_lower(c));
    if 'a' <= lower && lower <= 'z' {
        one_byte((lower as u8) - 96)
    } else if lower == ' ' || lower == '@' || lower == '2' {
        one_byte(0)
    } else if lower == '[' || lower == '3' {
        one_byte(0x1b)
    } else if lower == '\\' || lower == '4' {
        one_byte(0x1c)
    } else if lower == ']' || lower == '5' {
        one_byte(0x1d)
    } else if lower == '^' || lower == '6' {
        one_byte(0x1e)
    } else if lower == '_' || lower == '7' || lower == '/' {
        one_byte(0x1f)
    } else if lower == '?' || lower == '8' {
        one_byte(0x7f)
    } else {
        utf8_bytes(c)
    }
}

fn csi_key(param: u8, application_cursor: bool, final_byte: u8) -> (r: Vec<u8>)
    requires
        param < 10,
    ensures
        r@ == csi_bytes(param, application_cursor, final_byte),
{
    let mut r: Vec<u8> = Vec::new();
    r.push(0x1b);
    if param > 1 {
        r.push(0x5b);
        r.push(0x31);
        r.push(0x3b);
        r.push(48 + param);
    } else if application_cursor {
        r.push(0x4f);
    } else {
        r.push(0x5b);
    }
    r.push(final_byte);
    assert(r@ =~= csi_bytes(param, application_cursor, final_byte));
    r
}

fn tilde_key(param: u8, number: u8) -> (r: Vec<u8>)
    requires
        param < 10,
        number < 100,
    ensures
        r@ == tilde_bytes(param, number),
{
    let mut r: Vec<u8> = Vec::new();
    r.push(0x1b);
    r.push(0x5b);
    if number < 10 {
        r.push(48 + number);
    } else {
        r.push(48 + number / 10);
        r.push(48 + number % 10);
    }
    if param > 1 {
        r.push(0x3b);
        r.push(48 + param);
    }
    r.push(0x7e);
    assert(r@ =~= tilde_bytes(param, number));
    r
}

/// Encodes a key press as the bytes a terminal sends to the application.
/// `application_cursor` is the DECCKM mode of the pane's terminal: it
/// selects `ESC O x` over `ESC [ x` for unmodified cursor keys.
pub fn encode_key(key: KeyEvent, application_cursor: bool) -> (r: Vec<u8>)
    ensures
        r@ == key_bytes(key, application_cursor),
{
    let m = key.modifiers;
    let modifier_param: u8 = 1 + (if m.shift {
        1
    } else {
        0
    }) + (if m.alt {
        2
    } else {
        0
    }) + (if m.control {
        4
    } else {
        0
    });
    let bytes = match key.code {
        KeyCode::Char(c) => if m.control {
            ctrl_key_bytes(c)
        } else {
            utf8_bytes(c)
        },
        KeyCode::Enter => one_byte(0x0d),
        KeyCode::Esc => one_byte(0x1b),
        KeyCode::Backspace => one_byte(0x7f),
        KeyCode::Tab => one_byte(0x09),
        KeyCode::BackTab => {
            let mut r: Vec<u8> = Vec::new();
            r.push(0x1b);
            r.push(0x5b);
            r.push(0x5a);
            assert(r@ =~= seq![0x1bu8, 0x5bu8, 0x5au8]);
            r
        },
        KeyCode::Null => one_byte(0),
        KeyCode::Up => csi_key(modifier_param, application_cursor, 0x41),
        KeyCode::Down => csi_key(modifier_param, application_cursor, 0x42),
        KeyCode::Right => csi_key(modifier_param, application_cursor, 0x43),
        KeyCode::Left => csi_key(modifier_param, application_cursor, 0x44),
        KeyCode::Home => csi_key(modifier_param, application_cursor, 0x48),
        KeyCode::End => csi_key(modifier_param, application_cursor, 0x46),
        KeyCode::Insert => tilde_key(modifier_param, 2),
        KeyCode::Delete => tilde_key(modifier_param, 3),
        KeyCode::PageUp => tilde_key(modifier_param, 5),
        KeyCode::PageDown => tilde_key(modifier_param, 6),
        KeyCode::F(n) => if 1 <= n && n <= 4 {
            let mut r: Vec<u8> = Vec::new();
            r.push(0x1b);
            if modifier_param > 1 {
                r.push(0x5b);
                r.push(0x31);
                r.push(0x3b);
                r.push(48 + modifier_param);
            } else {
                r.push(0x4f);
            }
            r.push(0x50 + n - 1);
            assert(r@ =~= base_key_bytes(key, application_cursor));
            r
        } else if 5 <= n && n <= 12 {
            let number: u8 = if n == 5 {
                15
            } else if n == 6 {
                17
            } else if n == 7 {
                18
            } else if n == 8 {
                19
            } else if n == 9 {
                20
            } else if n == 10 {
                21
            } else if n == 11 {
                23
            } else {
                24
            };
            tilde_key(modifier_param, number)
        } else {
            Vec::new()
        },
        KeyCode::Other => Vec::new(),
    };
    assert(bytes@ == base_key_bytes(key, application_cursor));
    let prefixed = match key.code {
        KeyCode::Char(_) | KeyCode::Enter | KeyCode::Backspace => m.alt,
        _ => false,
    };
    if prefixed {
        let mut r = one_byte(0x1b);
        let mut i: usize = 0;
        while i < bytes.len()
            invariant
                i <= bytes@.len(),
                r@ == seq![0x1bu8] + bytes@.take(i as int),
            decreases bytes@.len() - i,
        {
            r.push(bytes[i]);
            i = i + 1;
            assert(r@ =~= seq![0x1bu8] + bytes@.take(i as int));
        }
        assert(bytes@.take(bytes@.len() as int) =~= bytes@);
        r
    } else {
        bytes
    }
}


/// What a key or a click asks of the supervisor.
#[derive(Debug, Clone, Copy, PartialEq, Eq, Structural)]
pub enum UserAction {
    NoAction,
    StopProcess(usize),
    StartProcess(usize),
    RestartProcess(usize),
    ToggleZoom(usize),
    OpenLink(usize),
    NextTab,
}

/// What handling a key gives besides the change of the dashboard: the
/// supervisor action, the bytes to write to the focused process's terminal,
/// and a message for a pane's log.
pub struct KeyResponse {
    pub action: UserAction,
    pub forward: Option<Vec<u8>>,
    pub notice: Option<Notice>,
}

/// A key response by value.
pub struct KeyReply {
    pub action: UserAction,
    pub forward: Option<Seq<u8>>,
    pub notice: Option<(usize, Seq<char>, Tone)>,
}

impl View for KeyResponse {
    type V = KeyReply;

    open spec fn view(&self) -> KeyReply {
        KeyReply {
            action: self.action,
            forward: match self.forward {
                Some(v) => Some(v@),
                None => None,
            },
            notice: match self.notice {
                Some(n) => Some(n@),
                None => None,
            },
        }
    }
}

/// Nothing to do.
pub open spec fn quiet() -> KeyReply {
    KeyReply { action: UserAction::NoAction, forward: None, notice: None }
}

/// The message left in a log that was cleared.
pub open spec fn cleared_text() -> Seq<char> {
    "LOG BUFFER CLEARED"@
}

/// A key in the combined log view.
pub open spec fn combined_key<L>(s: DashView<L>, code: KeyCode) -> DashView<L> {
    let len = s.combined_logs.len();
    let h = s.global_area_height;
    if code == KeyCode::Char('p') {
        DashView { show_combined_prefixes: !s.show_combined_prefixes, ..s }
    } else if code == KeyCode::Up || code == KeyCode::Char('k') {
        DashView { global_view_top: scrolled_up(s.global_view_top, len, 1, h), ..s }
    } else if code == KeyCode::Down || code == KeyCode::Char('j') {
        DashView { global_view_top: scrolled_down(s.global_view_top, len, 1, h), ..s }
    } else if code == KeyCode::PageUp {
        DashView { global_view_top: scrolled_up(s.global_view_top, len, 10, h), ..s }
    } else if code == KeyCode::PageDown {
        DashView { global_view_top: scrolled_down(s.global_view_top, len, 10, h), ..s }
    } else if code == KeyCode::Enter {
        DashView { global_view_top: None, ..s }
    } else {
        s
    }
}

/// A key for the focused pane in the grid, with `ih` rows of log shown:
/// the new pane, the action, and whether the log was cleared.
pub open spec fn pane_key<L>(p: PaneView<L>, key: KeyEvent, ih: usize) -> (PaneView<L>, UserAction, bool) {
    let code = key.code;
    let ctrl = key.modifiers.control;
    let len = p.logs.len();
    if code == KeyCode::Tab {
        (p, UserAction::NextTab, false)
    } else if code == KeyCode::Char('l') && ctrl {
        if p.config.mode == PaneMode::Log {
            (
                PaneView { logs: Seq::empty(), view_top_index: None, horizontal_scroll: 0, ..p },
                UserAction::NoAction,
                true,
            )
        } else {
            (p, UserAction::NoAction, false)
        }
    } else if code == KeyCode::Char('s') {
        (p, if p.state == ProcessState::Running {
            UserAction::StopProcess(p.id)
        } else {
            UserAction::StartProcess(p.id)
        }, false)
    } else if code == KeyCode::Char('r') {
        (p, UserAction::RestartProcess(p.id), false)
    } else if code == KeyCode::Char('w') {
        (PaneView {
            log_mode: if p.log_mode == LogMode::Truncate {
                LogMode::Wrap
            } else {
                LogMode::Truncate
            },
            ..p
        }, UserAction::NoAction, false)
    } else if code == KeyCode::Char('z') {
        (p, UserAction::ToggleZoom(p.id), false)
    } else if code == KeyCode::Enter {
        (PaneView { view_top_index: None, horizontal_scroll: 0, ..p }, UserAction::NoAction, false)
    } else if code == KeyCode::Up || code == KeyCode::Char('k') {
        (PaneView { view_top_index: scrolled_up(p.view_top_index, len, 1, ih), ..p }, UserAction::NoAction, false)
    } else if code == KeyCode::Down || code == KeyCode::Char('j') {
        (PaneView { view_top_index: scrolled_down(p.view_top_index, len, 1, ih), ..p }, UserAction::NoAction, false)
    } else if code == KeyCode::Left || code == KeyCode::Char('h') {
        (if p.log_mode == LogMode::Truncate {
            PaneView { horizontal_scroll: sat_sub(p.horizontal_scroll as int, 4) as usize, ..p }
        } else {
            p
        }, UserAction::NoAction, false)
    } else if code == KeyCode::Right || code == KeyCode::Char('l') {
        (if p.log_mode == LogMode::Truncate {
            PaneView {
                horizontal_scroll: if p.horizontal_scroll + 4 > usize::MAX {
                    usize::MAX
                } else {
                    (p.horizontal_scroll + 4) as usize
                },
                ..p
            }
        } else {
            p
        }, UserAction::NoAction, false)
    } else if code == KeyCode::PageUp {
        (PaneView { view_top_index: scrolled_up(p.view_top_index, len, 10, ih), ..p }, UserAction::NoAction, false)
    } else if code == KeyCode::PageDown {
        (PaneView { view_top_index: scrolled_down(p.view_top_index, len, 10, ih), ..p }, UserAction::NoAction, false)
    } else {
        (p, UserAction::NoAction, false)
    }
}

/// Whether `i` is the first geometry showing `target`.
pub open spec fn is_first_target(geoms: Seq<PaneGeometry>, target: PaneTarget, i: int) -> bool {
    &&& 0 <= i < geoms.len()
    &&& geoms[i].target == target
    &&& forall|j: int| 0 <= j < i ==> (#[trigger] geoms[j]).target != target
}

/// Rows of log shown in the pane of process `id`: its height without the
/// borders, or 24 when it is not laid out.
pub open spec fn pane_inner_height(geoms: Seq<PaneGeometry>, id: usize) -> usize {
    if exists|i: int| is_first_target(geoms, PaneTarget::Process(id), i) {
        let i = choose|i: int| is_first_target(geoms, PaneTarget::Process(id), i);
        sat_sub(geoms[i].area.height as int, 2) as usize
    } else {
        24
    }
}

/// What a key does to the dashboard, and what it asks for. Only presses
/// count. Control-Q quits and Control-A switches between the grid and the
/// combined log from anywhere; the combined log view takes its own keys. A
/// full-screen (TUI) pane that has the keyboard gets every key as terminal
/// input, but Control-X, which hands the keyboard back; Enter gives it the
/// keyboard again. Otherwise the key acts on the focused pane.
pub open spec fn key_outcome<L>(s: DashView<L>, key: KeyEvent, application_cursor: bool) -> (DashView<L>, KeyReply) {
    let code = key.code;
    let ctrl = key.modifiers.control;
    if key.kind != KeyEventKind::Press {
        (s, quiet())
    } else if code == KeyCode::Char('q') && ctrl {
        (DashView { should_quit: true, ..s }, quiet())
    } else if code == KeyCode::Char('a') && ctrl {
        (DashView { show_combined_logs: !s.show_combined_logs, ..s }, quiet())
    } else if s.show_combined_logs {
        (combined_key(s, code), quiet())
    } else if s.panes.len() == 0 {
        (s, quiet())
    } else {
        let f = s.focused_pane as int;
        let p = s.panes[f];
        if p.config.mode == PaneMode::Tui && p.tui_focused {
            if code == KeyCode::Char('x') && ctrl {
                (DashView { panes: s.panes.update(f, PaneView { tui_focused: false, ..p }), ..s }, quiet())
            } else {
                let b = key_bytes(key, application_cursor);
                (s, KeyReply {
                    forward: if b.len() > 0 {
                        Some(b)
                    } else {
                        None
                    },
                    ..quiet()
                })
            }
        } else if p.config.mode == PaneMode::Tui && code == KeyCode::Enter {
            (DashView { panes: s.panes.update(f, PaneView { tui_focused: true, ..p }), ..s }, quiet())
        } else {
            let (np, action, cleared) = pane_key(p, key, pane_inner_height(s.cached_geometries, p.id));
            (DashView { panes: s.panes.update(f, np), ..s }, KeyReply {
                action,
                forward: None,
                notice: if cleared {
                    Some((p.id, cleared_text(), Tone::DarkGray))
                } else {
                    None
                },
            })
        }
    }
}

fn quiet_response() -> (r: KeyResponse)
    ensures
        r@ == quiet(),
{
    KeyResponse { action: UserAction::NoAction, forward: None, notice: None }
}

/// Rows of log shown in the pane of process `id`.
fn inner_height_of(geoms: &Vec<PaneGeometry>, id: usize) -> (r: usize)
    ensures
        r == pane_inner_height(geoms@, id),
{
    let mut i: usize = 0;
    while i < geoms.len()
        invariant
            i <= geoms@.len(),
            forall|j: int| 0 <= j < i ==> (#[trigger] geoms@[j]).target != PaneTarget::Process(id),
        decreases geoms@.len() - i,
    {
        if geoms[i].target == PaneTarget::Process(id) {
            proof {
                assert(is_first_target(geoms@, PaneTarget::Process(id), i as int));
                let c = choose|k: int| is_first_target(geoms@, PaneTarget::Process(id), k);
                if c < i {
                    assert(geoms@[c].target != PaneTarget::Process(id));
                } else if c > i {
                    assert(geoms@[i as int].target != PaneTarget::Process(id));
                }
            }
            let h = geoms[i].area.height;
            return if h >= 2 {
                (h - 2) as usize
            } else {
                0
            };
        }
        i = i + 1;
    }
    proof {
        if exists|k: int| is_first_target(geoms@, PaneTarget::Process(id), k) {
            let c = choose|k: int| is_first_target(geoms@, PaneTarget::Process(id), k);
            assert(geoms@[c].target != PaneTarget::Process(id));
        }
    }
    24
}

/// Applies a grid key to the focused pane; gives the action and whether
/// the log was cleared.
fn apply_pane_key<L>(pane: &mut ProcessPane<L>, key: KeyEvent, inner_height: usize) -> (r: (UserAction, bool))
    requires
        room_for(old(pane).view_top_index, down_step(key.code)),
    ensures
        (final(pane)@, r.0, r.1) == pane_key(old(pane)@, key, inner_height),
{
    let code = key.code;
    let ctrl = key.modifiers.control;
    match code {
        KeyCode::Tab => (UserAction::NextTab, false),
        KeyCode::Char('l') if ctrl => {
            if pane.config.mode == PaneMode::Log {
                pane.clear_logs();
                (UserAction::NoAction, true)
            } else {
                (UserAction::NoAction, false)
            }
        },
        KeyCode::Char('s') => {
            if pane.state == ProcessState::Running {
                (UserAction::StopProcess(pane.id), false)
            } else {
                (UserAction::StartProcess(pane.id), false)
            }
        },
        KeyCode::Char('r') => (UserAction::RestartProcess(pane.id), false),
        KeyCode::Char('w') => {
            pane.toggle_wrap();
            (UserAction::NoAction, false)
        },
        KeyCode::Char('z') => (UserAction::ToggleZoom(pane.id), false),
        KeyCode::Enter => {
            pane.view_top_index = None;
            pane.horizontal_scroll = 0;
            (UserAction::NoAction, false)
        },
        KeyCode::Up | KeyCode::Char('k') => {
            pane.scroll_up(1, inner_height);
            (UserAction::NoAction, false)
        },
        KeyCode::Down | KeyCode::Char('j') => {
            pane.scroll_down(1, inner_height);
            (UserAction::NoAction, false)
        },
        KeyCode::Left | KeyCode::Char('h') => {
            if pane.log_mode == LogMode::Truncate {
                pane.horizontal_scroll = if pane.horizontal_scroll >= 4 {
                    pane.horizontal_scroll - 4
                } else {
                    0
                };
            }
            (UserAction::NoAction, false)
        },
        KeyCode::Right | KeyCode::Char('l') => {
            if pane.log_mode == LogMode::Truncate {
                pane.horizontal_scroll = if pane.horizontal_scroll <= usize::MAX - 4 {
                    pane.horizontal_scroll + 4
                } else {
                    usize::MAX
                };
            }
            (UserAction::NoAction, false)
        },
        KeyCode::PageUp => {
            pane.scroll_up(10, inner_height);
            (UserAction::NoAction, false)
        },
        KeyCode::PageDown => {
            pane.scroll_down(10, inner_height);
            (UserAction::NoAction, false)
        },
        _ => (UserAction::NoAction, false),
    }
}

/// How far a key moves a view down: a line for Down and `j`, ten for
/// PageDown, nothing for the other keys.
pub open spec fn down_step(code: KeyCode) -> usize {
    if code == KeyCode::Down || code == KeyCode::Char('j') {
        1
    } else if code == KeyCode::PageDown {
        10
    } else {
        0
    }
}

fn down_step_of(code: KeyCode) -> (r: usize)
    ensures
        r == down_step(code),
{
    match code {
        KeyCode::Down | KeyCode::Char('j') => 1,
        KeyCode::PageDown => 10,
        _ => 0,
    }
}

/// Whether the view a key moves down (the combined log, or the focused
/// pane's log) can take the move without its index overflowing.
pub open spec fn key_room<L>(s: DashView<L>, key: KeyEvent) -> bool {
    let code = key.code;
    let ctrl = key.modifiers.control;
    if key.kind != KeyEventKind::Press || (code == KeyCode::Char('q') && ctrl) || (code == KeyCode::Char('a')
        && ctrl) {
        true
    } else if s.show_combined_logs {
        room_for(s.global_view_top, down_step(code))
    } else if s.focused_pane >= s.panes.len() {
        true
    } else {
        let p = s.panes[s.focused_pane as int];
        if p.config.mode == PaneMode::Tui && (p.tui_focused || code == KeyCode::Enter) {
            true
        } else {
            room_for(p.view_top_index, down_step(code))
        }
    }
}

/// Whether handling `key` can move its view down without overflow.
pub fn key_has_room<L>(state: &DashboardState<L>, key: KeyEvent) -> (r: bool)
    ensures
        r == key_room(state@, key),
{
    let code = key.code;
    let ctrl = key.modifiers.control;
    if key.kind != KeyEventKind::Press || (code == KeyCode::Char('q') && ctrl) || (code == KeyCode::Char('a')
        && ctrl) {
        return true;
    }
    if state.show_combined_logs {
        return top_has_room(state.global_view_top, down_step_of(code));
    }
    if state.focused_pane >= state.panes.len() {
        return true;
    }
    let p = &state.panes[state.focused_pane];
    assert(state@.panes[state.focused_pane as int] == p@);
    if p.config.mode == PaneMode::Tui && (p.tui_focused || code == KeyCode::Enter) {
        return true;
    }
    top_has_room(p.view_top_index, down_step_of(code))
}

/// Handles a key: changes the dashboard and says what the supervisor is to
/// do, which bytes go to the focused process's terminal, and which message
/// goes to a pane's log.
pub fn handle_key<L>(state: &mut DashboardState<L>, key: KeyEvent, application_cursor: bool) -> (r: KeyResponse)
    requires
        focus_valid(old(state)@),
        key_room(old(state)@, key),
    ensures
        final(state)@ == key_outcome(old(state)@, key, application_cursor).0,
        r@ == key_outcome(old(state)@, key, application_cursor).1,
{
    if key.kind != KeyEventKind::Press {
        return quiet_response();
    }
    let code = key.code;
    let modifiers = key.modifiers;
    if code == KeyCode::Char('q') && modifiers.control {
        state.should_quit = true;
        return quiet_response();
    }
    if code == KeyCode::Char('a') && modifiers.control {
        state.show_combined_logs = !state.show_combined_logs;
        return quiet_response();
    }
    if state.show_combined_logs {
        match code {
            KeyCode::Char('p') => state.show_combined_prefixes = !state.show_combined_prefixes,
            KeyCode::Up | KeyCode::Char('k') => state.scroll_up(1),
            KeyCode::Down | KeyCode::Char('j') => state.scroll_down(1),
            KeyCode::PageUp => state.scroll_up(10),
            KeyCode::PageDown => state.scroll_down(10),
            KeyCode::Enter => state.global_view_top = None,
            _ => {},
        }
        return quiet_response();
    }
    if state.panes.len() == 0 {
        return quiet_response();
    }
    let f = state.focused_pane;
    let ghost old_panes = state.panes@;
    let ghost p = state@.panes[f as int];
    assert(p == state.panes@[f as int]@);
    let focused_id = state.panes[f].id;
    if state.panes[f].config.mode == PaneMode::Tui {
        if state.panes[f].tui_focused {
            if code == KeyCode::Char('x') && modifiers.control {
                state.panes[f].tui_focused = false;
                assert(pane_views(state.panes@) =~= pane_views(old_panes).update(
                    f as int,
                    PaneView { tui_focused: false, ..p },
                ));
                return quiet_response();
            }
            let bytes = encode_key(key, application_cursor);
            if bytes.len() > 0 {
                return KeyResponse { action: UserAction::NoAction, forward: Some(bytes), notice: None };
            }
            return quiet_response();
        }
        if code == KeyCode::Enter {
            state.panes[f].tui_focused = true;
            assert(pane_views(state.panes@) =~= pane_views(old_panes).update(
                f as int,
                PaneView { tui_focused: true, ..p },
            ));
            return quiet_response();
        }
    }
    let inner_height = inner_height_of(&state.cached_geometries, focused_id);
    assert(room_for(state@.panes[f as int].view_top_index, down_step(code)));
    let (action, cleared) = apply_pane_key(&mut state.panes[f], key, inner_height);
    proof {
        let (np, a, c) = pane_key(p, key, inner_height);
        assert(pane_views(state.panes@) =~= pane_views(old_panes).update(f as int, np));
    }
    let notice = if cleared {
        Some(Notice { pane: focused_id, text: owned("LOG BUFFER CLEARED"), tone: Tone::DarkGray })
    } else {
        None
    };
    KeyResponse { action, forward: None, notice }
}


/// A mouse button.
#[derive(Debug, Clone, Copy, PartialEq, Eq, Structural)]
pub enum MouseButton {
    Left,
    Right,
    Middle,
}

/// What the mouse did.
#[derive(Debug, Clone, Copy, PartialEq, Eq, Structural)]
pub enum MouseEventKind {
    Down(MouseButton),
    Up(MouseButton),
    Drag(MouseButton),
    Moved,
    ScrollDown,
    ScrollUp,
    ScrollLeft,
    ScrollRight,
}

/// A mouse event at a screen cell.
#[derive(Debug, Clone, Copy, PartialEq, Eq, Structural)]
pub struct MouseEvent {
    pub kind: MouseEventKind,
    pub column: u16,
    pub row: u16,
}

/// Whether `i` is the first geometry whose area holds the cell `(x, y)`.
pub open spec fn is_first_hit(geoms: Seq<PaneGeometry>, x: u16, y: u16, i: int) -> bool {
    &&& 0 <= i < geoms.len()
    &&& contains_cell(geoms[i].area, x, y)
    &&& forall|j: int| 0 <= j < i ==> !contains_cell((#[trigger] geoms[j]).area, x, y)
}

/// The first geometry whose area holds the cell `(x, y)`.
pub open spec fn first_hit(geoms: Seq<PaneGeometry>, x: u16, y: u16) -> Option<int> {
    if exists|i: int| is_first_hit(geoms, x, y, i) {
        Some(choose|i: int| is_first_hit(geoms, x, y, i))
    } else {
        None
    }
}

/// Whether `i` is the first pane of process `id`.
pub open spec fn is_first_pane<L>(panes: Seq<PaneView<L>>, id: usize, i: int) -> bool {
    &&& 0 <= i < panes.len()
    &&& panes[i].id == id
    &&& forall|j: int| 0 <= j < i ==> (#[trigger] panes[j]).id != id
}

/// The index of the first pane of process `id`.
pub open spec fn pane_position<L>(panes: Seq<PaneView<L>>, id: usize) -> Option<int> {
    if exists|i: int| is_first_pane(panes, id, i) {
        Some(choose|i: int| is_first_pane(panes, id, i))
    } else {
        None
    }
}

/// A left click on pane `p` (index `pi`) in geometry `geo`: the pane gets
/// the focus (and a full-screen pane the keyboard); on the title bar, the
/// button under the cursor acts.
pub open spec fn click_outcome<L>(
    s: DashView<L>,
    geo: PaneGeometry,
    pi: int,
    pid: usize,
    x: u16,
    y: u16,
) -> (DashView<L>, UserAction) {
    let p = s.panes[pi];
    let p1 = if p.config.mode == PaneMode::Tui && !p.tui_focused {
        PaneView { tui_focused: true, ..p }
    } else {
        p
    };
    let s1 = DashView { focused_pane: pi as usize, panes: s.panes.update(pi, p1), ..s };
    if y != geo.toggle_area.y {
        (s1, UserAction::NoAction)
    } else if contains_cell(geo.toggle_area, x, y) {
        (s1, if p1.state == ProcessState::Running {
            UserAction::StopProcess(pid)
        } else {
            UserAction::StartProcess(pid)
        })
    } else if contains_cell(geo.restart_area, x, y) {
        (s1, UserAction::RestartProcess(pid))
    } else if contains_cell(geo.wrap_area, x, y) {
        (DashView {
            panes: s1.panes.update(pi, PaneView {
                log_mode: if p1.log_mode == LogMode::Truncate {
                    LogMode::Wrap
                } else {
                    LogMode::Truncate
                },
                ..p1
            }),
            ..s1
        }, UserAction::NoAction)
    } else if contains_cell(geo.zoom_area, x, y) {
        (s1, UserAction::ToggleZoom(pid))
    } else if contains_cell(geo.link_area, x, y) {
        (s1, UserAction::OpenLink(pid))
    } else {
        (s1, UserAction::NoAction)
    }
}

/// What a mouse event does to the dashboard, and what it asks for. Nothing
/// in the combined log view; else it acts on the first pane under the
/// cursor: the wheel scrolls it by two lines, a left click focuses it and
/// presses the title bar button under the cursor.
pub open spec fn mouse_outcome<L>(s: DashView<L>, m: MouseEvent) -> (DashView<L>, UserAction) {
    if s.show_combined_logs {
        (s, UserAction::NoAction)
    } else {
        match first_hit(s.cached_geometries, m.column, m.row) {
            None => (s, UserAction::NoAction),
            Some(gi) => {
                let geo = s.cached_geometries[gi];
                match geo.target {
                    PaneTarget::CombinedLogs => {
                        let len = s.combined_logs.len();
                        let h = s.global_area_height;
                        (match m.kind {
                            MouseEventKind::ScrollUp => DashView {
                                global_view_top: scrolled_up(s.global_view_top, len, 2, h),
                                ..s
                            },
                            MouseEventKind::ScrollDown => DashView {
                                global_view_top: scrolled_down(s.global_view_top, len, 2, h),
                                ..s
                            },
                            _ => s,
                        }, UserAction::NoAction)
                    },
                    PaneTarget::Process(pid) => match pane_position(s.panes, pid) {
                        None => (s, UserAction::NoAction),
                        Some(pi) => {
                            let ih = sat_sub(geo.area.height as int, 2) as usize;
                            let p = s.panes[pi];
                            match m.kind {
                                MouseEventKind::ScrollUp => (DashView {
                                    panes: s.panes.update(pi, PaneView {
                                        view_top_index: scrolled_up(p.view_top_index, p.logs.len(), 2, ih),
                                        ..p
                                    }),
                                    ..s
                                }, UserAction::NoAction),
                                MouseEventKind::ScrollDown => (DashView {
                                    panes: s.panes.update(pi, PaneView {
                                        view_top_index: scrolled_down(p.view_top_index, p.logs.len(), 2, ih),
                                        ..p
                                    }),
                                    ..s
                                }, UserAction::NoAction),
                                MouseEventKind::Down(MouseButton::Left) => click_outcome(
                                    s,
                                    geo,
                                    pi,
                                    pid,
                                    m.column,
                                    m.row,
                                ),
                                _ => (s, UserAction::NoAction),
                            }
                        },
                    },
                }
            },
        }
    }
}

/// The first geometry whose area holds `(x, y)`.
fn find_hit(geoms: &Vec<PaneGeometry>, x: u16, y: u16) -> (r: Option<usize>)
    ensures
        match r {
            Some(i) => first_hit(geoms@, x, y) == Some(i as int),
            None => first_hit(geoms@, x, y) is None,
        },
{
    let mut i: usize = 0;
    while i < geoms.len()
        invariant
            i <= geoms@.len(),
            forall|j: int| 0 <= j < i ==> !contains_cell((#[trigger] geoms@[j]).area, x, y),
        decreases geoms@.len() - i,
    {
        if geoms[i].area.hit(x, y) {
            proof {
                assert(is_first_hit(geoms@, x, y, i as int));
                let c = choose|k: int| is_first_hit(geoms@, x, y, k);
                if c < i {
                    assert(!contains_cell(geoms@[c].area, x, y));
                } else if c > i {
                    assert(!contains_cell(geoms@[i as int].area, x, y));
                }
            }
            return Some(i);
        }
        i = i + 1;
    }
    proof {
        if exists|k: int| is_first_hit(geoms@, x, y, k) {
            let c = choose|k: int| is_first_hit(geoms@, x, y, k);
            assert(!contains_cell(geoms@[c].area, x, y));
        }
    }
    None
}

/// Whether a wheel turn down can move the view under the cursor (the
/// combined log or a pane's log) without its index overflowing.
pub open spec fn mouse_room<L>(s: DashView<L>, m: MouseEvent) -> bool {
    if m.kind != MouseEventKind::ScrollDown || s.show_combined_logs {
        true
    } else {
        match first_hit(s.cached_geometries, m.column, m.row) {
            None => true,
            Some(gi) => match s.cached_geometries[gi].target {
                PaneTarget::CombinedLogs => room_for(s.global_view_top, 2),
                PaneTarget::Process(pid) => match pane_position(s.panes, pid) {
                    None => true,
                    Some(pi) => room_for(s.panes[pi].view_top_index, 2),
                },
            },
        }
    }
}

/// Whether handling `m` can move its view down without overflow.
pub fn mouse_has_room<L>(state: &DashboardState<L>, m: MouseEvent) -> (r: bool)
    ensures
        r == mouse_room(state@, m),
{
    if m.kind != MouseEventKind::ScrollDown || state.show_combined_logs {
        return true;
    }
    let gi = match find_hit(&state.cached_geometries, m.column, m.row) {
        Some(i) => i,
        None => {
            return true;
        },
    };
    match state.cached_geometries[gi].target {
        PaneTarget::CombinedLogs => top_has_room(state.global_view_top, 2),
        PaneTarget::Process(pid) => match pane_index(&state.panes, pid) {
            None => true,
            Some(pi) => {
                assert(state@.panes[pi as int] == state.panes@[pi as int]@);
                top_has_room(state.panes[pi].view_top_index, 2)
            },
        },
    }
}

/// Handles a mouse event: changes the dashboard and says what the
/// supervisor is to do.
pub fn handle_mouse<L>(state: &mut DashboardState<L>, mouse_event: MouseEvent) -> (r: UserAction)
    requires
        mouse_room(old(state)@, mouse_event),
    ensures
        final(state)@ == mouse_outcome(old(state)@, mouse_event).0,
        r == mouse_outcome(old(state)@, mouse_event).1,
{
    if state.show_combined_logs {
        return UserAction::NoAction;
    }
    let mx = mouse_event.column;
    let my = mouse_event.row;
    let gi = match find_hit(&state.cached_geometries, mx, my) {
        Some(i) => i,
        None => {
            return UserAction::NoAction;
        },
    };
    let geo = state.cached_geometries[gi];
    let proc_id = match geo.target {
        PaneTarget::CombinedLogs => {
            match mouse_event.kind {
                MouseEventKind::ScrollUp => state.scroll_up(2),
                MouseEventKind::ScrollDown => state.scroll_down(2),
                _ => {},
            }
            return UserAction::NoAction;
        },
        PaneTarget::Process(id) => id,
    };
    let pane_idx = match pane_index(&state.panes, proc_id) {
        Some(i) => i,
        None => {
            return UserAction::NoAction;
        },
    };
    let inner_height: usize = if geo.area.height >= 2 {
        (geo.area.height - 2) as usize
    } else {
        0
    };
    let ghost old_panes = state.panes@;
    let ghost p = state@.panes[pane_idx as int];
    assert(p == state.panes@[pane_idx as int]@);
    match mouse_event.kind {
        MouseEventKind::ScrollUp => {
            state.panes[pane_idx].scroll_up(2, inner_height);
            assert(pane_views(state.panes@) =~= pane_views(old_panes).update(
                pane_idx as int,
                PaneView { view_top_index: scrolled_up(p.view_top_index, p.logs.len(), 2, inner_height), ..p },
            ));
            UserAction::NoAction
        },
        MouseEventKind::ScrollDown => {
            state.panes[pane_idx].scroll_down(2, inner_height);
            assert(pane_views(state.panes@) =~= pane_views(old_panes).update(
                pane_idx as int,
                PaneView { view_top_index: scrolled_down(p.view_top_index, p.logs.len(), 2, inner_height), ..p },
            ));
            UserAction::NoAction
        },
        MouseEventKind::Down(MouseButton::Left) => {
            state.focused_pane = pane_idx;
            if state.panes[pane_idx].config.mode == PaneMode::Tui && !state.panes[pane_idx].tui_focused {
                state.panes[pane_idx].tui_focused = true;
            }
            let ghost p1 = state.panes@[pane_idx as int]@;
            assert(pane_views(state.panes@) =~= pane_views(old_panes).update(pane_idx as int, p1));
            if my != geo.toggle_area.y {
                return UserAction::NoAction;
            }
            if geo.toggle_area.hit(mx, my) {
                return if state.panes[pane_idx].state == ProcessState::Running {
                    UserAction::StopProcess(proc_id)
                } else {
                    UserAction::StartProcess(proc_id)
                };
            }
            if geo.restart_area.hit(mx, my) {
                return UserAction::RestartProcess(proc_id);
            }
            if geo.wrap_area.hit(mx, my) {
                state.panes[pane_idx].toggle_wrap();
                assert(pane_views(state.panes@) =~= pane_views(old_panes).update(
                    pane_idx as int,
                    PaneView {
                        log_mode: if p1.log_mode == LogMode::Truncate {
                            LogMode::Wrap
                        } else {
                            LogMode::Truncate
                        },
                        ..p1
                    },
                ));
                return UserAction::NoAction;
            }
            if geo.zoom_area.hit(mx, my) {
                return UserAction::ToggleZoom(proc_id);
            }
            if geo.link_area.hit(mx, my) {
                return UserAction::OpenLink(proc_id);
            }
            UserAction::NoAction
        },
        _ => UserAction::NoAction,
    }
}


/// A key that is repeated or released changes nothing and asks for
/// nothing, so that terminals reporting those events do not act twice.
pub proof fn law_only_presses_act<L>(s: DashView<L>, key: KeyEvent, application_cursor: bool)
    requires
        key.kind != KeyEventKind::Press,
    ensures
        key_outcome(s, key, application_cursor) == (s, quiet()),
{
}

/// Ctrl+Q closes the dashboard from every view and changes nothing else.
pub proof fn law_ctrl_q_quits<L>(s: DashView<L>, key: KeyEvent, application_cursor: bool)
    requires
        key.kind == KeyEventKind::Press,
        key.code == KeyCode::Char('q'),
        key.modifiers.control,
    ensures
        key_outcome(s, key, application_cursor) == (DashView { should_quit: true, ..s }, quiet()),
{
}

/// Ctrl+A switches between the grid and the combined log, and pressing it
/// again brings back the dashboard as it was.
pub proof fn law_ctrl_a_twice_restores<L>(s: DashView<L>, key: KeyEvent, application_cursor: bool)
    requires
        key.kind == KeyEventKind::Press,
        key.code == KeyCode::Char('a'),
        key.modifiers.control,
    ensures
        key_outcome(s, key, application_cursor).0.show_combined_logs != s.show_combined_logs,
        key_outcome(key_outcome(s, key, application_cursor).0, key, application_cursor).0 == s,
{
    let t = key_outcome(s, key, application_cursor).0;
    assert(key_outcome(t, key, application_cursor).0 =~= s);
}

/// Keys and clicks keep the dashboard's panes, and the focus on one of
/// them.
pub proof fn law_input_keeps_focus<L>(s: DashView<L>, key: KeyEvent, application_cursor: bool, m: MouseEvent)
    requires
        focus_valid(s),
    ensures
        key_outcome(s, key, application_cursor).0.panes.len() == s.panes.len(),
        focus_valid(key_outcome(s, key, application_cursor).0),
        mouse_outcome(s, m).0.panes.len() == s.panes.len(),
        focus_valid(mouse_outcome(s, m).0),
{
    if !s.show_combined_logs {
        match first_hit(s.cached_geometries, m.column, m.row) {
            None => {},
            Some(gi) => {
                match s.cached_geometries[gi].target {
                    PaneTarget::CombinedLogs => {},
                    PaneTarget::Process(pid) => {
                        if exists|i: int| is_first_pane(s.panes, pid, i) {
                            let pi = choose|i: int| is_first_pane(s.panes, pid, i);
                            assert(0 <= pi < s.panes.len());
                        }
                    },
                }
            },
        }
    }
}

/// Arrow keys name their direction: whatever the modifiers and the cursor
/// mode, Up, Down, Right and Left send an escape sequence ending in `A`,
/// `B`, `C` and `D` respectively (so no two of them send the same bytes);
/// without modifiers Up and Down are `ESC [ A` / `ESC [ B`, or `ESC O A` /
/// `ESC O B` in application cursor mode, and with modifiers they are
/// `ESC [ 1 ; n A` / `ESC [ 1 ; n B` where n is 1 plus 1 for shift, 2 for alt
/// and 4 for control; Home ends in `H` and End in `F`.
pub proof fn law_arrow_keys_name_their_direction(m: KeyModifiers, kind: KeyEventKind, application_cursor: bool)
    ensures
        ({
            let up = key_bytes(KeyEvent { code: KeyCode::Up, modifiers: m, kind }, application_cursor);
            let down = key_bytes(KeyEvent { code: KeyCode::Down, modifiers: m, kind }, application_cursor);
            let right = key_bytes(KeyEvent { code: KeyCode::Right, modifiers: m, kind }, application_cursor);
            let left = key_bytes(KeyEvent { code: KeyCode::Left, modifiers: m, kind }, application_cursor);
            &&& up.len() >= 3 && up[0] == 0x1bu8 && up.last() == 0x41u8
            &&& down.len() >= 3 && down[0] == 0x1bu8 && down.last() == 0x42u8
            &&& right.len() >= 3 && right[0] == 0x1bu8 && right.last() == 0x43u8
            &&& left.len() >= 3 && left[0] == 0x1bu8 && left.last() == 0x44u8
            &&& up != down && left != right
            &&& key_bytes(KeyEvent { code: KeyCode::Home, modifiers: m, kind }, application_cursor).last() == 0x48u8
            &&& key_bytes(KeyEvent { code: KeyCode::End, modifiers: m, kind }, application_cursor).last() == 0x46u8
            &&& (m.shift || m.control || m.alt) ==> {
                let n = 1 + (if m.shift { 1int } else { 0int }) + (if m.alt { 2int } else { 0int }) + (if m.control { 4int } else { 0int });
                &&& up == seq![0x1bu8, 0x5bu8, 0x31u8, 0x3bu8, (0x30 + n) as u8, 0x41u8]
                &&& down == seq![0x1bu8, 0x5bu8, 0x31u8, 0x3bu8, (0x30 + n) as u8, 0x42u8]
            }
            &&& (!m.shift && !m.control && !m.alt) ==> {
                &&& down == if application_cursor {
                    seq![0x1bu8, 0x4fu8, 0x42u8]
                } else {
                    seq![0x1bu8, 0x5bu8, 0x42u8]
                }
                &&& up == if application_cursor {
                    seq![0x1bu8, 0x4fu8, 0x41u8]
                } else {
                    seq![0x1bu8, 0x5bu8, 0x41u8]
                }
            }
        }),
{
}

} // verus!
