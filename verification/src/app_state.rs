//! Screen state: tabs, panels and their navigation, time windows, the
//! explorer list, settings editing state and DAG sampling.
use std::collections::VecDeque;
use std::time::Instant;
use vstd::prelude::*;

use crate::config::AppConfig;
use crate::rpc_types::{rpc_methods, spec_rpc_methods};

verus! {

/// Points in time, as the standard library keeps them.
#[verifier::external_type_specification]
#[verifier::external_body]
pub struct ExInstant(Instant);

/// `Instant::now`: the current time; nothing is promised of the value.
#[verifier::external_body]
fn instant_now() -> Instant {
    Instant::now()
}

/// Most DAG samples kept.
pub const MAX_DAG_SAMPLES: usize = 120;

/// Number of panels on the analytics tab.
pub const ANALYTICS_PANEL_COUNT: usize = 6;

/// One observation of the sink blue score.
#[derive(Debug)]
pub struct DagSample {
    pub timestamp: Instant,
    pub blue_score: u64,
}

/// Recent observations of the sink blue score.
#[derive(Debug)]
pub struct DagStats {
    pub samples: VecDeque<DagSample>,
    pub sink_blue_score: Option<u64>,
}

impl Default for DagStats {
    fn default() -> (r: DagStats)
        ensures
            r.samples@.len() == 0,
            r.sink_blue_score is None,
    {
        DagStats { samples: VecDeque::new(), sink_blue_score: None }
    }
}

impl DagStats {
    /// Records the latest sink blue score (0 when unknown) as a new sample
    /// and keeps only the newest `MAX_DAG_SAMPLES` samples.
    pub fn update(&mut self, blue_score: Option<u64>)
        ensures
            final(self).sink_blue_score == blue_score,
            final(self).samples@.len() == if old(self).samples@.len() + 1 > MAX_DAG_SAMPLES {
                MAX_DAG_SAMPLES as int
            } else {
                old(self).samples@.len() + 1int
            },
            final(self).samples@.last().blue_score == match blue_score {
                Some(b) => b,
                None => 0,
            },
            forall|i: int|
                0 <= i < final(self).samples@.len() - 1 ==> #[trigger] final(self).samples@[i]
                    == old(self).samples@[old(self).samples@.len() + 1 - final(self).samples@.len()
                    + i],
    {
        self.sink_blue_score = blue_score;
        let score = match blue_score {
            Some(b) => b,
            None => 0,
        };
        self.samples.push_back(DagSample { timestamp: instant_now(), blue_score: score });
        let ghost after_push = self.samples@;
        while self.samples.len() > MAX_DAG_SAMPLES
            invariant
                after_push.len() == old(self).samples@.len() + 1,
                after_push.last().blue_score == score,
                after_push.drop_last() == old(self).samples@,
                1 <= self.samples@.len() <= after_push.len(),
                self.samples@ == after_push.skip(after_push.len() - self.samples@.len()),
                (after_push.len() > MAX_DAG_SAMPLES ==> self.samples@.len() >= MAX_DAG_SAMPLES),
                (after_push.len() <= MAX_DAG_SAMPLES ==> self.samples@.len() == after_push.len()),
                self.sink_blue_score == blue_score,
            decreases self.samples@.len(),
        {
            let ghost before = self.samples@;
            let popped = self.samples.pop_front();
            proof {
                assert(popped is Some);
                assert(before == after_push.skip(after_push.len() - before.len()));
                assert forall|i: int| 0 <= i < self.samples@.len() implies self.samples@[i]
                    == after_push[after_push.len() - self.samples@.len() + i] by {
                    assert(self.samples@[i] == before[i + 1]);
                    assert(before[i + 1] == after_push[after_push.len() - before.len() + i + 1]);
                }
                assert(self.samples@ == before.subrange(1, before.len() as int));
                assert(self.samples@ =~= after_push.skip(after_push.len() - self.samples@.len()));
            }
        }
        proof {
            let n = self.samples@.len();
            assert(self.samples@.last() == after_push.last());
            assert forall|i: int| 0 <= i < n - 1 implies #[trigger] self.samples@[i]
                == old(self).samples@[old(self).samples@.len() + 1 - n + i] by {
                assert(self.samples@[i] == after_push[after_push.len() - n + i]);
                assert(after_push[after_push.len() - n + i] == after_push.drop_last()[after_push.len() - n + i]);
            }
        }
    }
}


/// The tabs of the dashboard, in display order.
#[derive(Debug, Clone, Copy, PartialEq, Eq, Structural)]
pub enum Tab {
    Dashboard,
    Mining,
    Mempool,
    Analytics,
    RpcExplorer,
    Settings,
}

/// The tabs in display order.
pub open spec fn spec_all_tabs() -> Seq<Tab> {
    seq![Tab::Dashboard, Tab::Mining, Tab::Mempool, Tab::Analytics, Tab::RpcExplorer, Tab::Settings]
}

/// Position of a tab in display order.
pub open spec fn spec_tab_index(t: Tab) -> int {
    match t {
        Tab::Dashboard => 0,
        Tab::Mining => 1,
        Tab::Mempool => 2,
        Tab::Analytics => 3,
        Tab::RpcExplorer => 4,
        Tab::Settings => 5,
    }
}

/// Title shown in the tab bar.
pub open spec fn spec_tab_title(t: Tab) -> Seq<char> {
    match t {
        Tab::Dashboard => "1:Dashboard"@,
        Tab::Mining => "2:Mining"@,
        Tab::Mempool => "3:Mempool"@,
        Tab::Analytics => "4:Analytics"@,
        Tab::RpcExplorer => "5:RPC Cmds"@,
        Tab::Settings => "6:Settings"@,
    }
}

impl Tab {
    /// Every tab, in display order.
    pub fn all() -> (r: &'static [Tab])
        ensures
            r@ == spec_all_tabs(),
    {
        let r: &'static [Tab] = &[
            Tab::Dashboard,
            Tab::Mining,
            Tab::Mempool,
            Tab::Analytics,
            Tab::RpcExplorer,
            Tab::Settings,
        ];
        proof {
            assert(r@ =~= spec_all_tabs());
        }
        r
    }

    pub fn title(&self) -> (r: &'static str)
        ensures
            r@ == spec_tab_title(*self),
    {
        match self {
            Tab::Dashboard => "1:Dashboard",
            Tab::Mining => "2:Mining",
            Tab::Mempool => "3:Mempool",
            Tab::Analytics => "4:Analytics",
            Tab::RpcExplorer => "5:RPC Cmds",
            Tab::Settings => "6:Settings",
        }
    }

    /// Position of this tab in [`Tab::all`].
    pub fn index(&self) -> (r: usize)
        ensures
            r == spec_tab_index(*self),
            spec_all_tabs()[r as int] == *self,
    {
        let tabs = Tab::all();
        let mut i: usize = 0;
        while i < tabs.len()
            invariant
                tabs@ == spec_all_tabs(),
                i <= tabs@.len(),
                forall|j: int| 0 <= j < i ==> tabs@[j] != *self,
            decreases tabs@.len() - i,
        {
            if tabs[i] == *self {
                return i;
            }
            i = i + 1;
        }
        proof {
            assert(tabs@[spec_tab_index(*self)] == *self);
        }
        0
    }

    /// The tab after this one, wrapping from the last to the first.
    pub fn next(&self) -> (r: Tab)
        ensures
            r == spec_all_tabs()[(spec_tab_index(*self) + 1) % 6],
    {
        let tabs = Tab::all();
        tabs[(self.index() + 1) % tabs.len()]
    }

    /// The tab before this one, wrapping from the first to the last.
    pub fn prev(&self) -> (r: Tab)
        ensures
            r == spec_all_tabs()[(spec_tab_index(*self) + 5) % 6],
    {
        let tabs = Tab::all();
        let i = self.index();
        if i == 0 {
            tabs[tabs.len() - 1]
        } else {
            tabs[i - 1]
        }
    }
}

/// Going to the next tab and then to the previous one comes back, and the
/// same the other way round.
pub proof fn law_tab_next_prev(t: Tab)
    ensures
        spec_all_tabs()[(spec_tab_index(spec_all_tabs()[(spec_tab_index(t) + 1) % 6]) + 5) % 6]
            == t,
        spec_all_tabs()[(spec_tab_index(spec_all_tabs()[(spec_tab_index(t) + 5) % 6]) + 1) % 6]
            == t,
        forall|i: int| 0 <= i < 6 ==> spec_tab_index(#[trigger] spec_all_tabs()[i]) == i,
{
}

/// The four panels of the dashboard, two by two: node info and network
/// stats on top, markets and mempool fees below.
#[derive(Debug, Clone, Copy, PartialEq, Eq, Structural)]
pub enum DashboardPanel {
    NodeInfo,
    NetworkStats,
    Markets,
    MempoolFees,
}

impl Default for DashboardPanel {
    fn default() -> (r: DashboardPanel)
        ensures
            r == DashboardPanel::NodeInfo,
    {
        DashboardPanel::NodeInfo
    }
}

/// Column (0 left, 1 right) and row (0 top, 1 bottom) of a dashboard panel.
pub open spec fn panel_cell(p: DashboardPanel) -> (int, int) {
    match p {
        DashboardPanel::NodeInfo => (0, 0),
        DashboardPanel::NetworkStats => (1, 0),
        DashboardPanel::Markets => (0, 1),
        DashboardPanel::MempoolFees => (1, 1),
    }
}

impl DashboardPanel {
    /// The panel to the left, or the same panel in the left column.
    pub fn move_left(self) -> (r: DashboardPanel)
        ensures
            panel_cell(r) == (0int, panel_cell(self).1),
    {
        match self {
            DashboardPanel::NetworkStats => DashboardPanel::NodeInfo,
            DashboardPanel::MempoolFees => DashboardPanel::Markets,
            other => other,
        }
    }

    /// The panel to the right, or the same panel in the right column.
    pub fn move_right(self) -> (r: DashboardPanel)
        ensures
            panel_cell(r) == (1int, panel_cell(self).1),
    {
        match self {
            DashboardPanel::NodeInfo => DashboardPanel::NetworkStats,
            DashboardPanel::Markets => DashboardPanel::MempoolFees,
            other => other,
        }
    }

    /// The panel above, or the same panel in the top row.
    pub fn move_up(self) -> (r: DashboardPanel)
        ensures
            panel_cell(r) == (panel_cell(self).0, 0int),
    {
        match self {
            DashboardPanel::Markets => DashboardPanel::NodeInfo,
            DashboardPanel::MempoolFees => DashboardPanel::NetworkStats,
            other => other,
        }
    }

    /// The panel below, or the same panel in the bottom row.
    pub fn move_down(self) -> (r: DashboardPanel)
        ensures
            panel_cell(r) == (panel_cell(self).0, 1int),
    {
        match self {
            DashboardPanel::NodeInfo => DashboardPanel::Markets,
            DashboardPanel::NetworkStats => DashboardPanel::MempoolFees,
            other => other,
        }
    }
}

/// Each dashboard panel sits in its own cell.
pub proof fn law_panel_cells_distinct(a: DashboardPanel, b: DashboardPanel)
    ensures
        panel_cell(a) == panel_cell(b) ==> a == b,
{
}

/// Panels of the RPC explorer tab.
#[derive(Debug, Clone, Copy, PartialEq, Eq, Structural)]
pub enum RpcExplorerPanel {
    Methods,
    Response,
}

impl Default for RpcExplorerPanel {
    fn default() -> (r: RpcExplorerPanel)
        ensures
            r == RpcExplorerPanel::Methods,
    {
        RpcExplorerPanel::Methods
    }
}

/// Panels of the mining tab.
#[derive(Debug, Clone, Copy, PartialEq, Eq, Structural)]
pub enum MiningPanel {
    Miners,
    Pools,
    Versions,
}

impl Default for MiningPanel {
    fn default() -> (r: MiningPanel)
        ensures
            r == MiningPanel::Miners,
    {
        MiningPanel::Miners
    }
}

/// The panel after `p`: miners, versions, pools, then miners again.
pub open spec fn next_panel(p: MiningPanel) -> MiningPanel {
    match p {
        MiningPanel::Versions => MiningPanel::Pools,
        MiningPanel::Pools => MiningPanel::Miners,
        MiningPanel::Miners => MiningPanel::Versions,
    }
}

/// The panel before `p`.
pub open spec fn prev_panel(p: MiningPanel) -> MiningPanel {
    match p {
        MiningPanel::Versions => MiningPanel::Miners,
        MiningPanel::Pools => MiningPanel::Versions,
        MiningPanel::Miners => MiningPanel::Pools,
    }
}

impl MiningPanel {
    /// Miners to versions to pools to miners.
    pub fn next(self) -> (r: MiningPanel)
        ensures
            r == next_panel(self),
    {
        match self {
            MiningPanel::Versions => MiningPanel::Pools,
            MiningPanel::Pools => MiningPanel::Miners,
            MiningPanel::Miners => MiningPanel::Versions,
        }
    }

    /// The reverse of [`MiningPanel::next`].
    pub fn prev(self) -> (r: MiningPanel)
        ensures
            r == prev_panel(self),
    {
        match self {
            MiningPanel::Versions => MiningPanel::Miners,
            MiningPanel::Pools => MiningPanel::Versions,
            MiningPanel::Miners => MiningPanel::Pools,
        }
    }
}

/// Selection and sampling state of the mining tab.
pub struct MiningTabState {
    pub active_panel: MiningPanel,
    pub miners_selected: usize,
    pub pools_selected: usize,
    pub versions_selected: usize,
    pub block_count: usize,
}

impl Default for MiningTabState {
    fn default() -> (r: MiningTabState)
        ensures
            r.active_panel == MiningPanel::Miners,
            r.miners_selected == 0,
            r.pools_selected == 0,
            r.versions_selected == 0,
            r.block_count == 1000,
    {
        MiningTabState {
            active_panel: MiningPanel::Miners,
            miners_selected: 0,
            pools_selected: 0,
            versions_selected: 0,
            block_count: 1000,
        }
    }
}

/// The selection of the panel that is active.
pub open spec fn spec_selected(s: MiningTabState) -> usize {
    match s.active_panel {
        MiningPanel::Miners => s.miners_selected,
        MiningPanel::Pools => s.pools_selected,
        MiningPanel::Versions => s.versions_selected,
    }
}

/// `s` with the selection of its active panel set to `v`.
pub open spec fn with_selected(s: MiningTabState, v: usize) -> MiningTabState {
    match s.active_panel {
        MiningPanel::Miners => MiningTabState { miners_selected: v, ..s },
        MiningPanel::Pools => MiningTabState { pools_selected: v, ..s },
        MiningPanel::Versions => MiningTabState { versions_selected: v, ..s },
    }
}

impl MiningTabState {
    /// The selection of the active panel.
    pub fn selected(&self) -> (r: usize)
        ensures
            r == spec_selected(*self),
    {
        match self.active_panel {
            MiningPanel::Miners => self.miners_selected,
            MiningPanel::Pools => self.pools_selected,
            MiningPanel::Versions => self.versions_selected,
        }
    }

    /// The selection of the active panel, to be changed in place.
    pub fn selected_mut(&mut self) -> (r: &mut usize)
        ensures
            *r == spec_selected(*old(self)),
            *final(self) == with_selected(*old(self), *final(r)),
    {
        match self.active_panel {
            MiningPanel::Miners => &mut self.miners_selected,
            MiningPanel::Pools => &mut self.pools_selected,
            MiningPanel::Versions => &mut self.versions_selected,
        }
    }

    /// Sets the selection of the active panel.
    pub fn set_selected(&mut self, v: usize)
        ensures
            *final(self) == with_selected(*old(self), v),
    {
        match self.active_panel {
            MiningPanel::Miners => self.miners_selected = v,
            MiningPanel::Pools => self.pools_selected = v,
            MiningPanel::Versions => self.versions_selected = v,
        }
    }

    /// Number of blocks sampled: 100, then 1000, then 10000, then back to 100.
    pub fn cycle_block_count(&mut self)
        ensures
            final(self).block_count == match old(self).block_count {
                100 => 1000usize,
                1000 => 10000usize,
                _ => 100usize,
            },
            final(self).active_panel == old(self).active_panel,
            final(self).miners_selected == old(self).miners_selected,
            final(self).pools_selected == old(self).pools_selected,
            final(self).versions_selected == old(self).versions_selected,
    {
        self.block_count = match self.block_count {
            100 => 1000,
            1000 => 10000,
            _ => 100,
        };
    }
}

/// How an analytics panel shows its data.
#[derive(Debug, Clone, Copy, PartialEq, Eq, Structural)]
pub enum ViewMode {
    Table,
    Chart,
}

impl Default for ViewMode {
    fn default() -> (r: ViewMode)
        ensures
            r == ViewMode::Table,
    {
        ViewMode::Table
    }
}

/// The other view mode.
pub open spec fn toggled(m: ViewMode) -> ViewMode {
    match m {
        ViewMode::Table => ViewMode::Chart,
        ViewMode::Chart => ViewMode::Table,
    }
}

impl ViewMode {
    /// Switches between table and chart.
    pub fn toggle(&mut self)
        ensures
            *final(self) == toggled(*old(self)),
    {
        *self = match self {
            ViewMode::Table => ViewMode::Chart,
            ViewMode::Chart => ViewMode::Table,
        };
    }
}

/// The period an analytics panel covers.
#[derive(Debug, Clone, Copy, PartialEq, Eq, Structural)]
pub enum TimeWindow {
    OneMin,
    FifteenMin,
    ThirtyMin,
    OneHour,
    SixHour,
    TwelveHour,
    TwentyFourHour,
}

impl Default for TimeWindow {
    fn default() -> (r: TimeWindow)
        ensures
            r == TimeWindow::OneMin,
    {
        TimeWindow::OneMin
    }
}

/// The window after `w`, from the shortest to the longest and back.
pub open spec fn next_window(w: TimeWindow) -> TimeWindow {
    match w {
        TimeWindow::OneMin => TimeWindow::FifteenMin,
        TimeWindow::FifteenMin => TimeWindow::ThirtyMin,
        TimeWindow::ThirtyMin => TimeWindow::OneHour,
        TimeWindow::OneHour => TimeWindow::SixHour,
        TimeWindow::SixHour => TimeWindow::TwelveHour,
        TimeWindow::TwelveHour => TimeWindow::TwentyFourHour,
        TimeWindow::TwentyFourHour => TimeWindow::OneMin,
    }
}

/// Length of a window in seconds.
pub open spec fn window_seconds(w: TimeWindow) -> int {
    match w {
        TimeWindow::OneMin => 60,
        TimeWindow::FifteenMin => 900,
        TimeWindow::ThirtyMin => 1800,
        TimeWindow::OneHour => 3600,
        TimeWindow::SixHour => 21600,
        TimeWindow::TwelveHour => 43200,
        TimeWindow::TwentyFourHour => 86400,
    }
}

/// Short label of a window.
pub open spec fn window_label(w: TimeWindow) -> Seq<char> {
    match w {
        TimeWindow::OneMin => "1m"@,
        TimeWindow::FifteenMin => "15m"@,
        TimeWindow::ThirtyMin => "30m"@,
        TimeWindow::OneHour => "1h"@,
        TimeWindow::SixHour => "6h"@,
        TimeWindow::TwelveHour => "12h"@,
        TimeWindow::TwentyFourHour => "24h"@,
    }
}

impl TimeWindow {
    pub fn cycle(&mut self)
        ensures
            *final(self) == next_window(*old(self)),
    {
        *self = match self {
            TimeWindow::OneMin => TimeWindow::FifteenMin,
            TimeWindow::FifteenMin => TimeWindow::ThirtyMin,
            TimeWindow::ThirtyMin => TimeWindow::OneHour,
            TimeWindow::OneHour => TimeWindow::SixHour,
            TimeWindow::SixHour => TimeWindow::TwelveHour,
            TimeWindow::TwelveHour => TimeWindow::TwentyFourHour,
            TimeWindow::TwentyFourHour => TimeWindow::OneMin,
        };
    }

    /// Length of the window in whole seconds.
    pub fn whole_seconds(&self) -> (r: u64)
        ensures
            r == window_seconds(*self),
    {
        match self {
            TimeWindow::OneMin => 60,
            TimeWindow::FifteenMin => 900,
            TimeWindow::ThirtyMin => 1800,
            TimeWindow::OneHour => 3600,
            TimeWindow::SixHour => 21600,
            TimeWindow::TwelveHour => 43200,
            TimeWindow::TwentyFourHour => 86400,
        }
    }

    pub fn label(&self) -> (r: &'static str)
        ensures
            r@ == window_label(*self),
    {
        match self {
            TimeWindow::OneMin => "1m",
            TimeWindow::FifteenMin => "15m",
            TimeWindow::ThirtyMin => "30m",
            TimeWindow::OneHour => "1h",
            TimeWindow::SixHour => "6h",
            TimeWindow::TwelveHour => "12h",
            TimeWindow::TwentyFourHour => "24h",
        }
    }
}

/// Cycling goes through every window, each longer than the one before, and
/// comes back after seven steps.
pub proof fn law_window_cycle(w: TimeWindow)
    ensures
        next_window(next_window(next_window(next_window(next_window(next_window(next_window(w)))))))
            == w,
        next_window(w) != TimeWindow::OneMin ==> window_seconds(next_window(w)) > window_seconds(w),
{
}

/// Toggling the view mode twice changes nothing; cycling a mining panel
/// forward and back, or back and forward, changes nothing.
pub proof fn law_toggles_undo(m: MiningPanel, v: ViewMode)
    ensures
        toggled(toggled(v)) == v,
        prev_panel(next_panel(m)) == m,
        next_panel(prev_panel(m)) == m,
{
}

/// Editing state of the settings tab.
#[derive(Debug, Clone)]
pub struct SettingsState {
    pub config: AppConfig,
    pub selected_field: usize,
    pub editing: bool,
    pub edit_buffer: String,
    pub status_message: Option<(String, bool)>,
}

impl SettingsState {
    /// Settings of `config`, first field selected, not editing, no message.
    pub fn new(config: AppConfig) -> (r: SettingsState)
        ensures
            r.config == config,
            r.selected_field == 0,
            !r.editing,
            r.edit_buffer@.len() == 0,
            r.status_message is None,
    {
        SettingsState {
            config,
            selected_field: 0,
            editing: false,
            edit_buffer: String::new(),
            status_message: None,
        }
    }

    /// How field `idx` is shown: the marker in front of it, and its text,
    /// which is the edit buffer with a cursor while that field is edited and
    /// `value` otherwise.
    pub fn field_display(&self, idx: usize, value: &str) -> (r: (&'static str, String))
        ensures
            r.0@ == (if self.selected_field == idx {
                " > "@
            } else {
                "   "@
            }),
            r.1@ == (if self.selected_field == idx && self.editing {
                self.edit_buffer@ + "_"@
            } else {
                value@
            }),
    {
        let selected = self.selected_field == idx;
        let prefix = if selected {
            " > "
        } else {
            "   "
        };
        if selected && self.editing {
            let mut text = self.edit_buffer.clone();
            text.append("_");
            (prefix, text)
        } else {
            (prefix, value.to_owned())
        }
    }
}

/// State of the connection to the node.
#[derive(Debug, Clone)]
pub enum ConnectionStatus {
    Disconnected,
    Connecting,
    Connected,
    Error(String),
}

/// State of the RPC explorer tab.
#[derive(Debug, Clone)]
pub struct RpcExplorerState {
    pub selected_method: usize,
    pub available_methods: Vec<&'static str>,
    pub last_response: Option<String>,
    pub is_loading: bool,
    pub scroll_offset: usize,
}

impl Default for RpcExplorerState {
    /// Every RPC method, the first selected, nothing loaded.
    fn default() -> (r: RpcExplorerState)
        ensures
            r.selected_method == 0,
            r.available_methods@.len() == spec_rpc_methods().len(),
            forall|i: int|
                0 <= i < r.available_methods@.len() ==> #[trigger] r.available_methods@[i]
                    == spec_rpc_methods()[i].0,
            r.last_response is None,
            !r.is_loading,
            r.scroll_offset == 0,
    {
        let methods = rpc_methods();
        let mut names: Vec<&'static str> = Vec::new();
        let mut i: usize = 0;
        while i < methods.len()
            invariant
                methods@ == spec_rpc_methods(),
                i <= methods@.len(),
                names@.len() == i,
                forall|j: int| 0 <= j < i ==> #[trigger] names@[j] == methods@[j].0,
            decreases methods@.len() - i,
        {
            names.push(methods[i].0);
            i = i + 1;
        }
        RpcExplorerState {
            selected_method: 0,
            available_methods: names,
            last_response: None,
            is_loading: false,
            scroll_offset: 0,
        }
    }
}

/// Progress of the initial analytics catch-up, in DAA scores.
#[derive(Debug, Clone)]
pub struct AnalyticsSyncProgress {
    pub start_daa: u64,
    pub last_daa: u64,
    pub tip_daa: u64,
    pub from_pruning_point: bool,
}

} // verus!
