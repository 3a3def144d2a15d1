//! The state of the screens that keys and clicks act on: the active tab, the
//! overlays, the selections of each tab and the analytics panel settings.
//! What the node reports and the market prices are kept beside it by the
//! program.
use std::time::Instant;
use vstd::prelude::*;

use crate::app_state::{
    spec_all_tabs, spec_tab_index, AnalyticsSyncProgress, DashboardPanel, MiningPanel, MiningTabState,
    RpcExplorerPanel, RpcExplorerState, SettingsState, Tab, TimeWindow, ViewMode,
    ANALYTICS_PANEL_COUNT,
};
use crate::command_line::{CommandLine, CommandLineView};
use crate::config::AppConfig;
use crate::rpc_types::spec_rpc_methods;

verus! {

/// What the analytics tab shows: the focused panel, each panel's view mode
/// and time window, the catch-up progress and a reorg note.
pub struct AnalyticsState {
    pub focus: usize,
    pub view_modes: [ViewMode; 6],
    pub time_windows: [TimeWindow; 6],
    pub sync_progress: Option<AnalyticsSyncProgress>,
    pub reorg_notification: Option<String>,
}

impl Default for AnalyticsState {
    /// First panel focused, every panel a table over the last minute.
    fn default() -> (r: AnalyticsState)
        ensures
            r.focus == 0,
            forall|i: int| 0 <= i < 6 ==> #[trigger] r.view_modes@[i] == ViewMode::Table,
            forall|i: int| 0 <= i < 6 ==> #[trigger] r.time_windows@[i] == TimeWindow::OneMin,
            r.sync_progress is None,
            r.reorg_notification is None,
    {
        AnalyticsState {
            focus: 0,
            view_modes: [
                ViewMode::Table,
                ViewMode::Table,
                ViewMode::Table,
                ViewMode::Table,
                ViewMode::Table,
                ViewMode::Table,
            ],
            time_windows: [
                TimeWindow::OneMin,
                TimeWindow::OneMin,
                TimeWindow::OneMin,
                TimeWindow::OneMin,
                TimeWindow::OneMin,
                TimeWindow::OneMin,
            ],
            sync_progress: None,
            reorg_notification: None,
        }
    }
}

/// The key hint of the status bar: the quit question while it is asked,
/// then the popup's keys while one is open, then the keys of the active tab.
pub open spec fn context_hint_text(app: App) -> Seq<char> {
    if app.quit_confirm {
        "Press q again to quit, any other key to cancel"@
    } else if app.mempool_detail is Some {
        "Esc close popup | ? help"@
    } else {
        match app.active_tab {
            Tab::Dashboard => "Tab/1-6 switch | p pause | ? help"@,
            Tab::Mining => "h/l panel | j/k scroll | g/G top/bottom | ? help"@,
            Tab::Mempool => "j/k select | Enter detail | g/G top/bottom | ? help"@,
            Tab::Analytics => "Tab/1-6 switch | p pause | ? help"@,
            Tab::RpcExplorer => "Up/Down method | Enter exec | j/k scroll | ? help"@,
            Tab::Settings => if app.settings.editing {
                "Enter save | Esc cancel"@
            } else {
                "Up/Down nav | Enter edit/cycle | r reload | ? help"@
            },
        }
    }
}

/// The screens' state.
pub struct App {
    pub active_tab: Tab,
    pub should_quit: bool,
    pub analytics: AnalyticsState,
    pub rpc_explorer: RpcExplorerState,
    pub command_line: CommandLine,
    pub mempool_selected: usize,
    pub mempool_detail: Option<String>,
    pub paused: bool,
    pub show_help: bool,
    pub quit_confirm: bool,
    pub dirty: bool,
    pub dashboard_panel: DashboardPanel,
    pub rpc_explorer_panel: RpcExplorerPanel,
    pub mining_tab: MiningTabState,
    pub settings: SettingsState,
    pub last_click: Option<Instant>,
    pub clipboard_flash: Option<String>,
}

impl App {
    /// The dashboard first, nothing selected, every overlay closed, settings of `config`.
    pub fn new(config: AppConfig) -> (r: App)
        ensures
            r.active_tab == Tab::Dashboard,
            !r.should_quit,
            r.analytics.focus == 0,
            r.mempool_selected == 0,
            r.mempool_detail is None,
            !r.paused,
            !r.show_help,
            !r.quit_confirm,
            r.dirty,
            r.dashboard_panel == DashboardPanel::NodeInfo,
            r.rpc_explorer_panel == RpcExplorerPanel::Methods,
            r.command_line@ == CommandLineView::initial(),
            r.settings.config == config,
            r.settings.selected_field == 0,
            !r.settings.editing,
            r.settings.edit_buffer@.len() == 0,
            r.settings.status_message is None,
            r.rpc_explorer.selected_method == 0,
            r.rpc_explorer.available_methods@.len() == spec_rpc_methods().len(),
            forall|i: int|
                0 <= i < r.rpc_explorer.available_methods@.len()
                    ==> #[trigger] r.rpc_explorer.available_methods@[i] == spec_rpc_methods()[i].0,
            r.rpc_explorer.last_response is None,
            !r.rpc_explorer.is_loading,
            r.rpc_explorer.scroll_offset == 0,
            forall|i: int| 0 <= i < 6 ==> #[trigger] r.analytics.view_modes@[i] == ViewMode::Table,
            forall|i: int| 0 <= i < 6 ==> #[trigger] r.analytics.time_windows@[i] == TimeWindow::OneMin,
            r.analytics.sync_progress is None,
            r.analytics.reorg_notification is None,
            r.mining_tab.active_panel == MiningPanel::Miners,
            r.mining_tab.miners_selected == 0,
            r.mining_tab.pools_selected == 0,
            r.mining_tab.versions_selected == 0,
            r.mining_tab.block_count == 1000,
            r.last_click is None,
            r.clipboard_flash is None,
    {
        App {
            active_tab: Tab::Dashboard,
            should_quit: false,
            analytics: AnalyticsState::default(),
            rpc_explorer: RpcExplorerState::default(),
            command_line: CommandLine::new(),
            mempool_selected: 0,
            mempool_detail: None,
            paused: false,
            show_help: false,
            quit_confirm: false,
            dirty: true,
            dashboard_panel: DashboardPanel::default(),
            rpc_explorer_panel: RpcExplorerPanel::default(),
            mining_tab: MiningTabState::default(),
            settings: SettingsState::new(config),
            last_click: None,
            clipboard_flash: None,
        }
    }

    /// A tick of the clock: a copy note that is showing goes away, and the
    /// screen is redrawn for it.
    pub fn on_tick(&mut self)
        ensures
            *final(self) == if old(self).clipboard_flash is Some {
                App { clipboard_flash: None, dirty: true, ..*old(self) }
            } else {
                *old(self)
            },
    {
        if self.clipboard_flash.is_some() {
            self.clipboard_flash = None;
            self.dirty = true;
        }
    }

    /// Before connecting anew: the analytics sync progress of the old
    /// connection is dropped.
    pub fn clear_for_reconnect(&mut self)
        ensures
            *final(self) == (App {
                analytics: AnalyticsState { sync_progress: None, ..old(self).analytics },
                ..*old(self)
            }),
    {
        self.analytics.sync_progress = None;
    }

    /// Whether the settings name a node address to connect to.
    pub fn has_direct_url(&self) -> (r: bool)
        ensures
            r == (self.settings.config.url is Some),
    {
        self.settings.config.url.is_some()
    }

    /// Position of the active tab in [`Tab::all`].
    pub fn tab_index(&self) -> (r: usize)
        ensures
            r == spec_tab_index(self.active_tab),
    {
        self.active_tab.index()
    }

    /// The key hint of the status bar for the current screen.
    pub fn context_hint(&self) -> (r: &'static str)
        ensures
            r@ == context_hint_text(*self),
    {
        if self.quit_confirm {
            return "Press q again to quit, any other key to cancel";
        }
        if self.mempool_detail.is_some() {
            return "Esc close popup | ? help";
        }
        match self.active_tab {
            Tab::Dashboard => "Tab/1-6 switch | p pause | ? help",
            Tab::Mining => "h/l panel | j/k scroll | g/G top/bottom | ? help",
            Tab::Mempool => "j/k select | Enter detail | g/G top/bottom | ? help",
            Tab::Analytics => "Tab/1-6 switch | p pause | ? help",
            Tab::RpcExplorer => "Up/Down method | Enter exec | j/k scroll | ? help",
            Tab::Settings => {
                if self.settings.editing {
                    "Enter save | Esc cancel"
                } else {
                    "Up/Down nav | Enter edit/cycle | r reload | ? help"
                }
            },
        }
    }

    /// Activates the next tab, from the last back to the first.
    pub fn next_tab(&mut self)
        ensures
            *final(self) == (App {
                active_tab: spec_all_tabs()[(spec_tab_index(old(self).active_tab) + 1) % 6],
                ..*old(self)
            }),
    {
        self.active_tab = self.active_tab.next();
    }

    /// Activates the previous tab, from the first back to the last.
    pub fn prev_tab(&mut self)
        ensures
            *final(self) == (App {
                active_tab: spec_all_tabs()[(spec_tab_index(old(self).active_tab) + 5) % 6],
                ..*old(self)
            }),
    {
        self.active_tab = self.active_tab.prev();
    }
}

} // verus!
