//! Application state: detection results, connection statistics, and the selection in the
//! connections table that the keyboard moves.
use vstd::prelude::*;
use crate::conntrack::ConntrackStats;
use crate::platform::accelerator::{status_of, AccelerationProbe, AccelerationStatus};
use crate::platform::hardware::{HardwareInfo, HardwareProbe};
pub use crate::platform::system::HostInfo;
use crate::platform::system::{hostname_of, opt_view, os_version_of, release_extractable};

verus! {

/// Selection and scroll position of the connections table.
#[derive(Debug, Clone, Copy, PartialEq, Eq, Structural)]
pub struct TableSelection {
    /// The selected row.
    pub selected: Option<usize>,
    /// The first row displayed.
    pub offset: usize,
}

/// A key, as the event loop reads it.
#[derive(Debug, Clone, Copy, PartialEq, Eq, Structural)]
pub enum KeyCode {
    Char(char),
    Up,
    Down,
    Home,
    End,
    PageUp,
    PageDown,
    Esc,
    Other,
}

/// What a key asks of the application.
#[derive(Debug, Clone, Copy, PartialEq, Eq, Structural)]
pub enum KeyAction {
    ToggleHelp,
    Next,
    Previous,
    First,
    Last,
    PageUp,
    PageDown,
    /// Close the help popup, or quit when it is closed.
    Back,
    Ignore,
}

/// Application state.
pub struct App {
    /// Indicates whether the application should exit.
    pub should_quit: bool,
    /// Indicates whether the help popup should be displayed.
    pub show_help: bool,
    /// Static host information (hostname, OS release).
    pub host_info: HostInfo,
    /// System packet acceleration status detected at startup.
    pub acc_status: AccelerationStatus,
    /// Hardware capabilities and platform feature flags.
    pub hardware_info: HardwareInfo,
    /// Holds connection tracking statistics.
    pub conntrack_stats: ConntrackStats,
    /// State for table selection and navigation.
    pub table_state: TableSelection,
    /// How many rows are visible in the table (used for page up/down).
    pub page_size: usize,
}

// ---------------------------------------------------------------------------
// Specification
// ---------------------------------------------------------------------------

/// `n - 1`, or `0` for `0`.
pub open spec fn sat_dec(n: nat) -> nat {
    if n == 0 {
        0
    } else {
        (n - 1) as nat
    }
}

/// Selecting `index`; clearing the selection also scrolls back to the top.
pub open spec fn select_spec(t: TableSelection, index: Option<usize>) -> TableSelection {
    TableSelection { selected: index, offset: if index is None { 0 } else { t.offset } }
}

/// The next row, wrapping from the last to the first.
pub open spec fn next_of(t: TableSelection, count: nat) -> TableSelection {
    let i: int = match t.selected {
        Some(i) => if i >= sat_dec(count) {
            0
        } else {
            i + 1
        },
        None => 0,
    };
    select_spec(t, Some(i as usize))
}

/// The previous row, wrapping from the first to the last.
pub open spec fn previous_of(t: TableSelection, count: nat) -> TableSelection {
    let i: int = match t.selected {
        Some(i) => if i == 0 {
            sat_dec(count) as int
        } else {
            i - 1
        },
        None => 0,
    };
    select_spec(t, Some(i as usize))
}

/// The first row, or no selection in an empty table.
pub open spec fn first_of(t: TableSelection, count: nat) -> TableSelection {
    if count == 0 {
        select_spec(t, None)
    } else {
        select_spec(t, Some(0))
    }
}

/// The last row, or no selection in an empty table.
pub open spec fn last_of(t: TableSelection, count: nat) -> TableSelection {
    if count == 0 {
        select_spec(t, None)
    } else {
        select_spec(t, Some((count - 1) as usize))
    }
}

/// The selected row, `0` when none is.
pub open spec fn current(t: TableSelection) -> int {
    match t.selected {
        Some(s) => s as int,
        None => 0,
    }
}

/// The selected row's position on the screen.
pub open spec fn relative(t: TableSelection) -> int {
    if current(t) >= t.offset {
        current(t) - t.offset
    } else {
        0
    }
}

/// One page up: the view scrolls up a page and the selection keeps its place on the screen;
/// from the first page, the first row.
pub open spec fn page_up_of(t: TableSelection, count: nat, page: nat) -> TableSelection {
    if count == 0 {
        select_spec(t, None)
    } else if t.offset == 0 {
        TableSelection { selected: Some(0), offset: 0 }
    } else {
        let new_off: int = if t.offset >= page {
            t.offset - page
        } else {
            0
        };
        TableSelection { selected: Some((new_off + relative(t)) as usize), offset: new_off as usize }
    }
}

/// The smaller of two integers.
pub open spec fn min_int(a: int, b: int) -> int {
    if a <= b {
        a
    } else {
        b
    }
}

/// The largest offset that still fills the screen.
pub open spec fn max_offset(count: nat, page: nat) -> int {
    if count >= page {
        count - page
    } else {
        0
    }
}

/// One page down: the view scrolls down a page (no further than [`max_offset`]) and the
/// selection keeps its place on the screen within the table; from the last page, the last row.
pub open spec fn page_down_of(t: TableSelection, count: nat, page: nat) -> TableSelection {
    if count == 0 {
        select_spec(t, None)
    } else if t.offset >= max_offset(count, page) {
        TableSelection {
            selected: Some((count - 1) as usize),
            offset: max_offset(count, page) as usize,
        }
    } else {
        let new_off = min_int(t.offset + page, max_offset(count, page));
        TableSelection {
            selected: Some(min_int(new_off + relative(t), count - 1) as usize),
            offset: new_off as usize,
        }
    }
}

/// The selection kept within a table of `count` rows after a refresh.
pub open spec fn clamp_of(t: TableSelection, count: nat) -> TableSelection {
    match t.selected {
        Some(s) => if count == 0 {
            select_spec(t, None)
        } else if s >= count {
            select_spec(t, Some((count - 1) as usize))
        } else {
            t
        },
        None => t,
    }
}

/// The action bound to a key; the page keys `b`, `u`, `f`, `d` only with Control.
pub open spec fn action_spec(code: KeyCode, ctrl: bool) -> KeyAction {
    match code {
        KeyCode::Char(c) => if c == '?' {
            KeyAction::ToggleHelp
        } else if c == 'j' {
            KeyAction::Next
        } else if c == 'k' {
            KeyAction::Previous
        } else if c == 'g' {
            KeyAction::First
        } else if c == 'G' {
            KeyAction::Last
        } else if ctrl && (c == 'b' || c == 'u') {
            KeyAction::PageUp
        } else if ctrl && (c == 'f' || c == 'd') {
            KeyAction::PageDown
        } else if c == 'q' {
            KeyAction::Back
        } else {
            KeyAction::Ignore
        },
        KeyCode::Down => KeyAction::Next,
        KeyCode::Up => KeyAction::Previous,
        KeyCode::Home => KeyAction::First,
        KeyCode::End => KeyAction::Last,
        KeyCode::PageUp => KeyAction::PageUp,
        KeyCode::PageDown => KeyAction::PageDown,
        KeyCode::Esc => KeyAction::Back,
        KeyCode::Other => KeyAction::Ignore,
    }
}

/// The table selection after an action.
pub open spec fn table_after(a: KeyAction, t: TableSelection, count: nat, page: nat) -> TableSelection {
    match a {
        KeyAction::Next => next_of(t, count),
        KeyAction::Previous => previous_of(t, count),
        KeyAction::First => first_of(t, count),
        KeyAction::Last => last_of(t, count),
        KeyAction::PageUp => page_up_of(t, count, page),
        KeyAction::PageDown => page_down_of(t, count, page),
        _ => t,
    }
}

/// Whether the help popup is shown after an action.
pub open spec fn help_after(a: KeyAction, show_help: bool) -> bool {
    match a {
        KeyAction::ToggleHelp => !show_help,
        KeyAction::Back => false,
        _ => show_help,
    }
}

/// Whether the application quits after an action.
pub open spec fn quit_after(a: KeyAction, show_help: bool, should_quit: bool) -> bool {
    match a {
        KeyAction::Back => should_quit || !show_help,
        _ => should_quit,
    }
}

/// The number of rows of the connections table.
pub open spec fn row_count(a: App) -> nat {
    a.conntrack_stats.connections@.len()
}

/// The selection lies within a table of `count` rows, and so does the offset.
pub open spec fn selection_valid(t: TableSelection, count: nat) -> bool {
    &&& t.selected matches Some(s) ==> s < count
    &&& t.offset < count
}

/// Everything but the selection, the help popup and the quit flag is equal.
pub open spec fn same_content(a: App, b: App) -> bool {
    &&& a.host_info == b.host_info
    &&& a.acc_status == b.acc_status
    &&& a.hardware_info == b.hardware_info
    &&& a.conntrack_stats == b.conntrack_stats
    &&& a.page_size == b.page_size
}

/// The visible rows of the table in an area `height` rows high: all but the borders and
/// the header, at least one.
pub open spec fn page_size_spec(height: nat) -> nat {
    if height >= 5 {
        (height - 4) as nat
    } else {
        1
    }
}

// ---------------------------------------------------------------------------
// Laws
// ---------------------------------------------------------------------------

/// Moving down then up returns to the same row, when a row of a non-empty table is
/// selected.
pub proof fn law_previous_undoes_next(t: TableSelection, count: nat)
    requires
        0 < count <= usize::MAX,
        t.selected matches Some(s) && s < count,
    ensures
        previous_of(next_of(t, count), count) == t,
{
}

/// Moving up then down returns to the same row, when a row of a non-empty table is
/// selected.
pub proof fn law_next_undoes_previous(t: TableSelection, count: nat)
    requires
        0 < count <= usize::MAX,
        t.selected matches Some(s) && s < count,
    ensures
        next_of(previous_of(t, count), count) == t,
{
}

/// In a non-empty table, every action keeps the selection and the offset within the table.
pub proof fn law_actions_keep_selection_valid(a: KeyAction, t: TableSelection, count: nat, page: nat)
    requires
        count > 0,
        count <= usize::MAX,
        selection_valid(t, count),
    ensures
        selection_valid(table_after(a, t, count, page), count),
{
}

/// After a refresh, the selection is absent or within the new table.
pub proof fn law_refresh_bounds_selection(t: TableSelection, count: nat)
    requires
        count <= usize::MAX,
    ensures
        clamp_of(t, count).selected matches Some(s) ==> s < count,
{
}

/// Toggling the help popup twice leaves it as it was.
pub proof fn law_toggle_help_twice(show_help: bool)
    ensures
        help_after(KeyAction::ToggleHelp, help_after(KeyAction::ToggleHelp, show_help))
            == show_help,
{
}

/// Going back with the help popup open closes it and does not quit; with it closed, quits.
pub proof fn law_back_closes_help_first(should_quit: bool)
    ensures
        !help_after(KeyAction::Back, true),
        quit_after(KeyAction::Back, true, should_quit) == should_quit,
        quit_after(KeyAction::Back, false, should_quit),
{
}

// ---------------------------------------------------------------------------
// Implementation
// ---------------------------------------------------------------------------

impl TableSelection {
    /// No row selected, scrolled to the top.
    pub fn new() -> (r: Self)
        ensures
            r.selected is None,
            r.offset == 0,
    {
        TableSelection { selected: None, offset: 0 }
    }

    /// Selects `index`; clearing the selection also scrolls back to the top.
    pub fn select(&mut self, index: Option<usize>)
        ensures
            *final(self) == select_spec(*old(self), index),
    {
        self.selected = index;
        if index.is_none() {
            self.offset = 0;
        }
    }
}

/// The action bound to a key.
pub fn action_of(code: KeyCode, ctrl: bool) -> (r: KeyAction)
    ensures
        r == action_spec(code, ctrl),
{
    match code {
        KeyCode::Char(c) => {
            if c == '?' {
                KeyAction::ToggleHelp
            } else if c == 'j' {
                KeyAction::Next
            } else if c == 'k' {
                KeyAction::Previous
            } else if c == 'g' {
                KeyAction::First
            } else if c == 'G' {
                KeyAction::Last
            } else if ctrl && (c == 'b' || c == 'u') {
                KeyAction::PageUp
            } else if ctrl && (c == 'f' || c == 'd') {
                KeyAction::PageDown
            } else if c == 'q' {
                KeyAction::Back
            } else {
                KeyAction::Ignore
            }
        },
        KeyCode::Down => KeyAction::Next,
        KeyCode::Up => KeyAction::Previous,
        KeyCode::Home => KeyAction::First,
        KeyCode::End => KeyAction::Last,
        KeyCode::PageUp => KeyAction::PageUp,
        KeyCode::PageDown => KeyAction::PageDown,
        KeyCode::Esc => KeyAction::Back,
        KeyCode::Other => KeyAction::Ignore,
    }
}

/// The visible rows of the table in an area `height` rows high (see [`page_size_spec`]).
pub fn page_size_for_height(height: u16) -> (r: usize)
    ensures
        r == page_size_spec(height as nat),
{
    if height >= 5 {
        (height - 4) as usize
    } else {
        1
    }
}

impl Default for App {
    fn default() -> (r: Self)
        ensures
            !r.should_quit,
            !r.show_help,
            r.table_state == (TableSelection { selected: Some(0), offset: 0 }),
            r.page_size == 10,
            r.conntrack_stats.connections@.len() == 0,
    {
        Self::new()
    }
}

impl App {
    /// Creates a new application state: nothing detected yet, no connections, the first row
    /// selected.
    pub fn new() -> (r: Self)
        ensures
            !r.should_quit,
            !r.show_help,
            r.table_state == (TableSelection { selected: Some(0), offset: 0 }),
            r.page_size == 10,
            r.conntrack_stats.connections@.len() == 0,
            r.host_info.hostname@.len() == 0,
            r.host_info.os_version@.len() == 0,
            !r.acc_status.software && !r.acc_status.hw_ppe && !r.acc_status.hw_wed,
    {
        let mut table_state = TableSelection::new();
        table_state.select(Some(0));
        let conntrack_stats = ConntrackStats::default();
        assert(conntrack_stats.connections@.len() == conntrack_stats@.connections.len());
        App {
            should_quit: false,
            show_help: false,
            host_info: HostInfo::default(),
            acc_status: AccelerationStatus::default(),
            hardware_info: HardwareInfo::default(),
            conntrack_stats,
            table_state,
            page_size: 10,
        }
    }

    /// Records what the system shows at startup: the acceleration engines, the hardware,
    /// the host name and the OS release.
    pub fn init(
        &mut self,
        acc: &AccelerationProbe,
        hw: &HardwareProbe,
        host_name: Option<String>,
        long_os_version: Option<String>,
    )
        requires
            long_os_version matches Some(v) ==> release_extractable(v@),
        ensures
            final(self).acc_status == status_of(*acc),
            final(self).hardware_info.detected_from(*hw),
            final(self).host_info.hostname@ == hostname_of(opt_view(host_name)),
            final(self).host_info.os_version@ == os_version_of(opt_view(long_os_version)),
            final(self).conntrack_stats == old(self).conntrack_stats,
            final(self).table_state == old(self).table_state,
            final(self).page_size == old(self).page_size,
            final(self).show_help == old(self).show_help,
            final(self).should_quit == old(self).should_quit,
    {
        self.acc_status = AccelerationStatus::check_system(acc);
        self.hardware_info = HardwareInfo::detect(hw);
        self.host_info = HostInfo::from_system(host_name, long_os_version);
    }

    /// Takes in fresh connection statistics and keeps the selection within the table.
    pub fn on_tick(&mut self, stats: ConntrackStats)
        ensures
            final(self).conntrack_stats == stats,
            final(self).table_state == clamp_of(old(self).table_state, stats.connections@.len()),
            final(self).host_info == old(self).host_info,
            final(self).acc_status == old(self).acc_status,
            final(self).hardware_info == old(self).hardware_info,
            final(self).page_size == old(self).page_size,
            final(self).show_help == old(self).show_help,
            final(self).should_quit == old(self).should_quit,
    {
        self.conntrack_stats = stats;
        if let Some(selected) = self.table_state.selected {
            let conn_count = self.conntrack_stats.connections.len();
            if conn_count == 0 {
                self.table_state.select(None);
            } else if selected >= conn_count {
                self.table_state.select(Some(conn_count - 1));
            }
        }
    }

    /// Toggles the help popup.
    pub fn toggle_help(&mut self)
        ensures
            final(self).show_help == !old(self).show_help,
            final(self).should_quit == old(self).should_quit,
            final(self).table_state == old(self).table_state,
            same_content(*final(self), *old(self)),
    {
        self.show_help = !self.show_help;
    }

    /// Selects the next row, wrapping from the last to the first.
    pub fn next(&mut self)
        ensures
            final(self).table_state == next_of(old(self).table_state, row_count(*old(self))),
            final(self).show_help == old(self).show_help,
            final(self).should_quit == old(self).should_quit,
            same_content(*final(self), *old(self)),
    {
        let len = self.conntrack_stats.connections.len();
        let last = if len == 0 {
            0
        } else {
            len - 1
        };
        let i = match self.table_state.selected {
            Some(i) => {
                if i >= last {
                    0
                } else {
                    i + 1
                }
            },
            None => 0,
        };
        self.table_state.select(Some(i));
    }

    /// Selects the previous row, wrapping from the first to the last.
    pub fn previous(&mut self)
        ensures
            final(self).table_state == previous_of(old(self).table_state, row_count(*old(self))),
            final(self).show_help == old(self).show_help,
            final(self).should_quit == old(self).should_quit,
            same_content(*final(self), *old(self)),
    {
        let len = self.conntrack_stats.connections.len();
        let i = match self.table_state.selected {
            Some(i) => {
                if i == 0 {
                    if len == 0 {
                        0
                    } else {
                        len - 1
                    }
                } else {
                    i - 1
                }
            },
            None => 0,
        };
        self.table_state.select(Some(i));
    }

    /// Selects the first row (equivalent to `gg` or Home).
    pub fn first(&mut self)
        ensures
            final(self).table_state == first_of(old(self).table_state, row_count(*old(self))),
            final(self).show_help == old(self).show_help,
            final(self).should_quit == old(self).should_quit,
            same_content(*final(self), *old(self)),
    {
        if self.conntrack_stats.connections.len() == 0 {
            self.table_state.select(None);
        } else {
            self.table_state.select(Some(0));
        }
    }

    /// Selects the last row (equivalent to `G` or End).
    pub fn last(&mut self)
        ensures
            final(self).table_state == last_of(old(self).table_state, row_count(*old(self))),
            final(self).show_help == old(self).show_help,
            final(self).should_quit == old(self).should_quit,
            same_content(*final(self), *old(self)),
    {
        let count = self.conntrack_stats.connections.len();
        if count == 0 {
            self.table_state.select(None);
        } else {
            self.table_state.select(Some(count - 1));
        }
    }

    /// Jumps up by one visible page (PageUp).
    pub fn page_up(&mut self)
        ensures
            final(self).table_state == page_up_of(
                old(self).table_state,
                row_count(*old(self)),
                old(self).page_size as nat,
            ),
            final(self).show_help == old(self).show_help,
            final(self).should_quit == old(self).should_quit,
            same_content(*final(self), *old(self)),
    {
        let count = self.conntrack_stats.connections.len();
        if count == 0 {
            self.table_state.select(None);
            return;
        }
        let current_offset = self.table_state.offset;
        let current_selected = match self.table_state.selected {
            Some(s) => s,
            None => 0,
        };
        let relative_pos = if current_selected >= current_offset {
            current_selected - current_offset
        } else {
            0
        };
        if current_offset == 0 {
            self.table_state.select(Some(0));
            self.table_state.offset = 0;
        } else {
            let new_offset = if current_offset >= self.page_size {
                current_offset - self.page_size
            } else {
                0
            };
            self.table_state.offset = new_offset;
            self.table_state.select(Some(new_offset + relative_pos));
        }
    }

    /// Jumps down by one visible page (PageDown).
    pub fn page_down(&mut self)
        ensures
            final(self).table_state == page_down_of(
                old(self).table_state,
                row_count(*old(self)),
                old(self).page_size as nat,
            ),
            final(self).show_help == old(self).show_help,
            final(self).should_quit == old(self).should_quit,
            same_content(*final(self), *old(self)),
    {
        let count = self.conntrack_stats.connections.len();
        if count == 0 {
            self.table_state.select(None);
            return;
        }
        let current_offset = self.table_state.offset;
        let current_selected = match self.table_state.selected {
            Some(s) => s,
            None => 0,
        };
        let relative_pos = if current_selected >= current_offset {
            current_selected - current_offset
        } else {
            0
        };
        let max_offset = if count >= self.page_size {
            count - self.page_size
        } else {
            0
        };
        if current_offset >= max_offset {
            self.table_state.select(Some(count - 1));
            self.table_state.offset = max_offset;
        } else {
            let new_offset = if self.page_size >= max_offset - current_offset {
                max_offset
            } else {
                current_offset + self.page_size
            };
            self.table_state.offset = new_offset;
            let new_selected = if relative_pos >= count - 1 - new_offset {
                count - 1
            } else {
                new_offset + relative_pos
            };
            self.table_state.select(Some(new_selected));
        }
    }

    /// Signals the application to exit.
    pub fn quit(&mut self)
        ensures
            final(self).should_quit,
            final(self).show_help == old(self).show_help,
            final(self).table_state == old(self).table_state,
            same_content(*final(self), *old(self)),
    {
        self.should_quit = true;
    }

    /// Applies a key: the action it is bound to (see [`action_spec`]).
    pub fn handle_key(&mut self, code: KeyCode, ctrl: bool)
        ensures
            final(self).table_state == table_after(
                action_spec(code, ctrl),
                old(self).table_state,
                row_count(*old(self)),
                old(self).page_size as nat,
            ),
            final(self).show_help == help_after(action_spec(code, ctrl), old(self).show_help),
            final(self).should_quit == quit_after(
                action_spec(code, ctrl),
                old(self).show_help,
                old(self).should_quit,
            ),
            same_content(*final(self), *old(self)),
    {
        match action_of(code, ctrl) {
            KeyAction::ToggleHelp => self.toggle_help(),
            KeyAction::Next => self.next(),
            KeyAction::Previous => self.previous(),
            KeyAction::First => self.first(),
            KeyAction::Last => self.last(),
            KeyAction::PageUp => self.page_up(),
            KeyAction::PageDown => self.page_down(),
            KeyAction::Back => {
                if self.show_help {
                    self.toggle_help();
                } else {
                    self.quit();
                }
            },
            KeyAction::Ignore => {},
        }
    }
}

} // verus!
