//! What the keys do, and the small decisions of the screens.

use crate::procs::ProcSort;
use vstd::prelude::*;
use vstd::string::*;

verus! {

/// After how many milliseconds the dashboard reads the process table
/// again.
pub const PROCESS_REFRESH_MS: u64 = 3000;

/// After how many milliseconds the dashboard lists its directory again.
pub const LISTING_REFRESH_MS: u64 = 5000;

/// After how many milliseconds the footer shows its next tip.
pub const TIP_PERIOD_MS: u64 = 12_000;

/// The narrowest area in which a screen is drawn, in columns.
pub const MIN_WIDTH: u16 = 80;

/// The lowest area in which a screen is drawn, in rows.
pub const MIN_HEIGHT: u16 = 14;

/// The screens.
#[derive(Clone, Copy, Debug, PartialEq, Eq, Structural)]
pub enum Screen {
    Dashboard,
    Processes,
    DiskDive,
}

/// The targets of a disk scan.
#[derive(Clone, Copy, Debug, PartialEq, Eq, Structural)]
pub enum DiskTarget {
    Var,
    Home,
    Root,
}

/// The directories that the dashboard can list.
#[derive(Clone, Copy, Debug, PartialEq, Eq, Structural)]
pub enum DashDirTarget {
    Cwd,
    Var,
}

/// A key that was pressed.
#[derive(Clone, Copy, Debug, PartialEq, Eq, Structural)]
pub enum Key {
    Char(char),
    Esc,
    Up,
    Down,
    Tab,
    Other,
}

/// What the program must do after a key, besides drawing the new state.
#[derive(Clone, Copy, Debug, PartialEq, Eq, Structural)]
pub enum Action {
    /// Nothing.
    Nothing,
    /// Leave the program.
    Quit,
    /// Read the metrics now.
    Refresh,
    /// Begin a disk scan of the chosen target.
    StartScan,
}

/// What the keys act on.
#[derive(Clone, Copy, Debug, PartialEq, Eq, Structural)]
pub struct UiState {
    /// The screen that is shown.
    pub screen: Screen,
    /// Whether the help panel is open.
    pub show_help: bool,
    /// The order of the process table.
    pub proc_sort: ProcSort,
    /// How far the process table is scrolled.
    pub proc_scroll: u16,
    /// The target of the next disk scan.
    pub disk_target: DiskTarget,
    /// How far the scan results are scrolled.
    pub disk_scroll: u16,
    /// The directory that the dashboard lists.
    pub dash_dir_target: DashDirTarget,
    /// Whether the listing of the dashboard is out of date.
    pub dash_listing_stale: bool,
    /// Whether the dashboard shows every mount.
    pub dash_show_all_mounts: bool,
    /// The number of the footer's tip.
    pub footer_tip_idx: u8,
}

/// `n - 1`, or zero at zero.
pub open spec fn one_less(n: u16) -> u16 {
    if n == 0 {
        0
    } else {
        (n - 1) as u16
    }
}

/// `n + 1`, or the largest value at the largest value.
pub open spec fn one_more(n: u16) -> u16 {
    if n == u16::MAX {
        n
    } else {
        (n + 1) as u16
    }
}

impl DiskTarget {
    /// The target behind this one, in a circle.
    pub open spec fn following(self) -> DiskTarget {
        match self {
            DiskTarget::Var => DiskTarget::Home,
            DiskTarget::Home => DiskTarget::Root,
            DiskTarget::Root => DiskTarget::Var,
        }
    }
}

impl DashDirTarget {
    /// The other directory.
    pub open spec fn toggled(self) -> DashDirTarget {
        match self {
            DashDirTarget::Cwd => DashDirTarget::Var,
            DashDirTarget::Var => DashDirTarget::Cwd,
        }
    }
}

/// The other order of the process table.
pub open spec fn other_sort(sort: ProcSort) -> ProcSort {
    match sort {
        ProcSort::Cpu => ProcSort::Mem,
        ProcSort::Mem => ProcSort::Cpu,
    }
}

impl UiState {
    /// The state at the start: the dashboard, nothing scrolled, nothing
    /// toggled.
    pub open spec fn initial() -> UiState {
        UiState {
            screen: Screen::Dashboard,
            show_help: false,
            proc_sort: ProcSort::Cpu,
            proc_scroll: 0,
            disk_target: DiskTarget::Var,
            disk_scroll: 0,
            dash_dir_target: DashDirTarget::Cwd,
            dash_listing_stale: true,
            dash_show_all_mounts: false,
            footer_tip_idx: 0,
        }
    }

    /// The state after `key`.
    ///
    /// `?` opens and closes the help. `Esc`, `p` and `d` close it and go to
    /// the dashboard, the processes and the disk screen. The arrows scroll
    /// the table of the screen. `Tab` changes what the screen shows: the
    /// listed directory, the order of the processes, the scan target, and
    /// with the last two starts the table at its top. `f` toggles the
    /// mounts on the dashboard. Any other key changes nothing.
    pub open spec fn after_key(self, key: Key) -> UiState {
        match key {
            Key::Char(c) => {
                if c == '?' {
                    UiState { show_help: !self.show_help, ..self }
                } else if c == 'p' {
                    UiState { show_help: false, screen: Screen::Processes, ..self }
                } else if c == 'd' {
                    UiState { show_help: false, screen: Screen::DiskDive, ..self }
                } else if c == 'f' && self.screen == Screen::Dashboard {
                    UiState { dash_show_all_mounts: !self.dash_show_all_mounts, ..self }
                } else {
                    self
                }
            },
            Key::Esc => UiState { show_help: false, screen: Screen::Dashboard, ..self },
            Key::Up => match self.screen {
                Screen::Processes => UiState { proc_scroll: one_less(self.proc_scroll), ..self },
                Screen::DiskDive => UiState { disk_scroll: one_less(self.disk_scroll), ..self },
                Screen::Dashboard => self,
            },
            Key::Down => match self.screen {
                Screen::Processes => UiState { proc_scroll: one_more(self.proc_scroll), ..self },
                Screen::DiskDive => UiState { disk_scroll: one_more(self.disk_scroll), ..self },
                Screen::Dashboard => self,
            },
            Key::Tab => match self.screen {
                Screen::Dashboard => UiState {
                    dash_dir_target: self.dash_dir_target.toggled(),
                    dash_listing_stale: true,
                    ..self
                },
                Screen::DiskDive => UiState {
                    disk_target: self.disk_target.following(),
                    disk_scroll: 0,
                    ..self
                },
                Screen::Processes => UiState {
                    proc_sort: other_sort(self.proc_sort),
                    proc_scroll: 0,
                    ..self
                },
            },
            Key::Other => self,
        }
    }

    /// What the program must do after `key` in this state: `q` leaves, `r`
    /// reads the metrics, `s` on the disk screen begins a scan.
    pub open spec fn action_of(self, key: Key) -> Action {
        match key {
            Key::Char(c) => {
                if c == 'q' {
                    Action::Quit
                } else if c == 'r' {
                    Action::Refresh
                } else if c == 's' && self.screen == Screen::DiskDive {
                    Action::StartScan
                } else {
                    Action::Nothing
                }
            },
            _ => Action::Nothing,
        }
    }

    /// The state at the start.
    pub fn new() -> (state: UiState)
        ensures
            state == UiState::initial(),
    {
        UiState {
            screen: Screen::Dashboard,
            show_help: false,
            proc_sort: ProcSort::Cpu,
            proc_scroll: 0,
            disk_target: DiskTarget::Var,
            disk_scroll: 0,
            dash_dir_target: DashDirTarget::Cwd,
            dash_listing_stale: true,
            dash_show_all_mounts: false,
            footer_tip_idx: 0,
        }
    }

    /// Takes a key: changes the state and says what else must be done.
    pub fn on_key(&mut self, key: Key) -> (action: Action)
        ensures
            *final(self) == old(self).after_key(key),
            action == old(self).action_of(key),
    {
        match key {
            Key::Char(c) => {
                if c == 'q' {
                    return Action::Quit;
                } else if c == '?' {
                    self.show_help = !self.show_help;
                } else if c == 'p' {
                    self.show_help = false;
                    self.screen = Screen::Processes;
                } else if c == 'd' {
                    self.show_help = false;
                    self.screen = Screen::DiskDive;
                } else if c == 'r' {
                    return Action::Refresh;
                } else if c == 's' {
                    if self.screen == Screen::DiskDive {
                        return Action::StartScan;
                    }
                } else if c == 'f' {
                    if self.screen == Screen::Dashboard {
                        self.dash_show_all_mounts = !self.dash_show_all_mounts;
                    }
                }
            },
            Key::Esc => {
                self.show_help = false;
                self.screen = Screen::Dashboard;
            },
            Key::Up => {
                if self.screen == Screen::Processes {
                    self.proc_scroll = self.proc_scroll.saturating_sub(1);
                } else if self.screen == Screen::DiskDive {
                    self.disk_scroll = self.disk_scroll.saturating_sub(1);
                }
            },
            Key::Down => {
                if self.screen == Screen::Processes {
                    self.proc_scroll = self.proc_scroll.saturating_add(1);
                } else if self.screen == Screen::DiskDive {
                    self.disk_scroll = self.disk_scroll.saturating_add(1);
                }
            },
            Key::Tab => {
                match self.screen {
                    Screen::Dashboard => {
                        self.dash_dir_target = match self.dash_dir_target {
                            DashDirTarget::Cwd => DashDirTarget::Var,
                            DashDirTarget::Var => DashDirTarget::Cwd,
                        };
                        self.dash_listing_stale = true;
                    },
                    Screen::DiskDive => {
                        self.disk_target = match self.disk_target {
                            DiskTarget::Var => DiskTarget::Home,
                            DiskTarget::Home => DiskTarget::Root,
                            DiskTarget::Root => DiskTarget::Var,
                        };
                        self.disk_scroll = 0;
                    },
                    Screen::Processes => {
                        self.proc_sort = self.proc_sort.toggled();
                        self.proc_scroll = 0;
                    },
                }
            },
            Key::Other => {},
        }
        Action::Nothing
    }

    /// Moves the footer to its next tip; behind the last number comes the
    /// first.
    pub fn advance_tip(&mut self)
        ensures
            *final(self) == (UiState {
                footer_tip_idx: if old(self).footer_tip_idx == u8::MAX {
                    0u8
                } else {
                    (old(self).footer_tip_idx + 1) as u8
                },
                ..*old(self)
            }),
    {
        self.footer_tip_idx = if self.footer_tip_idx == u8::MAX {
            0
        } else {
            self.footer_tip_idx + 1
        };
    }
}

impl Default for UiState {
    fn default() -> (state: UiState)
        ensures
            state == UiState::initial(),
    {
        UiState::new()
    }
}

/// Whether a tick reads the process table: always on the process screen; on
/// the dashboard when it was never read or `PROCESS_REFRESH_MS` have
/// passed since; never on the disk screen.
pub open spec fn process_refresh_due(screen: Screen, since_last_ms: Option<u64>) -> bool {
    match screen {
        Screen::Processes => true,
        Screen::Dashboard => match since_last_ms {
            Some(elapsed) => elapsed >= PROCESS_REFRESH_MS,
            None => true,
        },
        Screen::DiskDive => false,
    }
}

/// Decides `process_refresh_due`.
pub fn wants_process_refresh(screen: Screen, since_last_ms: Option<u64>) -> (due: bool)
    ensures
        due == process_refresh_due(screen, since_last_ms),
{
    match screen {
        Screen::Processes => true,
        Screen::Dashboard => match since_last_ms {
            Some(elapsed) => elapsed >= PROCESS_REFRESH_MS,
            None => true,
        },
        Screen::DiskDive => false,
    }
}

/// Whether the dashboard lists its directory again: when it never did, when
/// the listing is out of date, or when `LISTING_REFRESH_MS` have passed.
pub fn wants_listing(stale: bool, since_last_ms: Option<u64>) -> (due: bool)
    ensures
        due == (stale || since_last_ms is None || since_last_ms->0 >= LISTING_REFRESH_MS),
{
    stale || match since_last_ms {
        Some(elapsed) => elapsed >= LISTING_REFRESH_MS,
        None => true,
    }
}

/// Whether the footer is due for its next tip.
pub fn tip_due(since_last_ms: u64) -> (due: bool)
    ensures
        due == (since_last_ms >= TIP_PERIOD_MS),
{
    since_last_ms >= TIP_PERIOD_MS
}

/// The rows of a table of `len` rows that are shown when it is scrolled by
/// `scroll` and `visible` rows fit: they start at `scroll`, but no later
/// than the last row, and at least one is shown.
pub open spec fn window_of(scroll: u16, len: nat, visible: u16) -> (int, int) {
    let start = if len == 0 {
        0
    } else if scroll as int >= len {
        len - 1
    } else {
        scroll as int
    };
    let room = if visible == 0 {
        1
    } else {
        visible as int
    };
    let end = if start + room > len {
        len as int
    } else {
        start + room
    };
    (start, end)
}

/// Computes the rows that are shown, as the indices of the first row and
/// of the row behind the last.
pub fn scroll_window(scroll: u16, len: usize, visible: u16) -> (window: (usize, usize))
    ensures
        (window.0 as int, window.1 as int) == window_of(scroll, len as nat, visible),
        window.0 <= window.1 <= len,
        len > 0 ==> window.0 < window.1,
{
    let start: usize = if len == 0 {
        0
    } else if scroll as usize >= len {
        len - 1
    } else {
        scroll as usize
    };
    let room: usize = if visible == 0 {
        1
    } else {
        visible as usize
    };
    let end: usize = if room > len - start {
        len
    } else {
        start + room
    };
    (start, end)
}

/// The path of a scan target. The home directory is `home`, or the root
/// where there is none.
pub open spec fn target_path(target: DiskTarget, home: Option<Seq<char>>) -> Seq<char> {
    match target {
        DiskTarget::Var => "/var"@,
        DiskTarget::Home => match home {
            Some(path) => path,
            None => "/"@,
        },
        DiskTarget::Root => "/"@,
    }
}

/// The path of a scan target.
pub fn disk_target_path(target: DiskTarget, home: Option<String>) -> (path: String)
    ensures
        path@ == target_path(
            target,
            match home {
                Some(h) => Some(h@),
                None => None,
            },
        ),
{
    match target {
        DiskTarget::Var => String::from_str("/var"),
        DiskTarget::Home => match home {
            Some(path) => path,
            None => String::from_str("/"),
        },
        DiskTarget::Root => String::from_str("/"),
    }
}

/// The path of a directory that the dashboard lists. The working
/// directory is `cwd`, or the root where it is unknown.
pub open spec fn listed_path(target: DashDirTarget, cwd: Option<Seq<char>>) -> Seq<char> {
    match target {
        DashDirTarget::Cwd => match cwd {
            Some(path) => path,
            None => "/"@,
        },
        DashDirTarget::Var => "/var"@,
    }
}

/// The path of a directory that the dashboard lists.
pub fn dash_target_path(target: DashDirTarget, cwd: Option<String>) -> (path: String)
    ensures
        path@ == listed_path(
            target,
            match cwd {
                Some(c) => Some(c@),
                None => None,
            },
        ),
{
    match target {
        DashDirTarget::Cwd => match cwd {
            Some(path) => path,
            None => String::from_str("/"),
        },
        DashDirTarget::Var => String::from_str("/var"),
    }
}

/// The short name under which the dashboard lists a directory.
pub fn dash_target_name(target: DashDirTarget) -> (name: &'static str)
    ensures
        name@ == (match target {
            DashDirTarget::Cwd => "CWD"@,
            DashDirTarget::Var => "/var"@,
        }),
{
    match target {
        DashDirTarget::Cwd => "CWD",
        DashDirTarget::Var => "/var",
    }
}

/// Whether an area is too small for a screen.
pub fn too_small(width: u16, height: u16) -> (small: bool)
    ensures
        small == (width < MIN_WIDTH || height < MIN_HEIGHT),
{
    width < MIN_WIDTH || height < MIN_HEIGHT
}

/// The tips of a screen, in the order in which the footer shows them.
pub open spec fn tips_of(screen: Screen) -> Seq<Seq<char>> {
    match screen {
        Screen::Dashboard => seq![
            "Tab: toggle dir target (CWD \u{2194} /var)"@,
            "f: toggle mount filter (filtered \u{2194} all)"@,
            "p: processes \u{b7} d: disk dive"@,
            "r: refresh now \u{b7} ?: help"@,
            "Esc: back to dashboard"@,
        ],
        Screen::Processes => seq![
            "Tab: sort CPU \u{2194} Mem"@,
            "\u{2191}/\u{2193}: scroll \u{b7} q: quit"@,
            "Esc: back"@,
        ],
        Screen::DiskDive => seq![
            "s: scan (on-demand)"@,
            "Tab: change target (/var \u{2194} home \u{2194} /)"@,
            "\u{2191}/\u{2193}: scroll \u{b7} Esc: back"@,
        ],
    }
}

/// The tip that the footer of a screen shows at tip number `index`: the
/// tips of the screen in a circle.
pub fn footer_tip(screen: Screen, index: u8) -> (tip: &'static str)
    ensures
        tip@ == tips_of(screen)[index as int % tips_of(screen).len() as int],
{
    match screen {
        Screen::Dashboard => {
            let at = index % 5;
            if at == 0 {
                "Tab: toggle dir target (CWD \u{2194} /var)"
            } else if at == 1 {
                "f: toggle mount filter (filtered \u{2194} all)"
            } else if at == 2 {
                "p: processes \u{b7} d: disk dive"
            } else if at == 3 {
                "r: refresh now \u{b7} ?: help"
            } else {
                "Esc: back to dashboard"
            }
        },
        Screen::Processes => {
            let at = index % 3;
            if at == 0 {
                "Tab: sort CPU \u{2194} Mem"
            } else if at == 1 {
                "\u{2191}/\u{2193}: scroll \u{b7} q: quit"
            } else {
                "Esc: back"
            }
        },
        Screen::DiskDive => {
            let at = index % 3;
            if at == 0 {
                "s: scan (on-demand)"
            } else if at == 1 {
                "Tab: change target (/var \u{2194} home \u{2194} /)"
            } else {
                "\u{2191}/\u{2193}: scroll \u{b7} Esc: back"
            }
        },
    }
}

} // verus!
