//! What keys and clicks do to the screens. Each handler changes the screen
//! state and names the outside work, if any, that the key asks for: copying
//! to the clipboard, opening a page, running an RPC method, saving settings.
use vstd::prelude::*;

use base64::Engine;

use crate::app_state::{
    spec_all_tabs, spec_selected, spec_tab_index, with_selected, MiningPanel, MiningTabState,
    RpcExplorerState, SettingsState, Tab, TimeWindow, ViewMode, next_window, next_panel, prev_panel,
    toggled,
};
use crate::command_line::{CommandLine, CommandLineView};
use crate::screen::App;
use std::time::Instant;
use crate::config::{next_in, spec_valid_networks, AppConfig};
use crate::rpc_types::{decimal, push_decimal};
use crate::text::{bytes_start_with, starts_with_bytes, trim_spec, trim_str};

verus! {

/// The fields of the settings tab, in display order.
#[derive(Debug, Clone, Copy, PartialEq, Eq, Structural)]
pub enum SettingsField {
    Url,
    Network,
    RefreshInterval,
    AnalysisStart,
}

/// Number of settings fields.
pub const SETTINGS_FIELD_COUNT: usize = 4;

/// The settings fields in display order.
pub open spec fn spec_settings_fields() -> Seq<SettingsField> {
    seq![
        SettingsField::Url,
        SettingsField::Network,
        SettingsField::RefreshInterval,
        SettingsField::AnalysisStart,
    ]
}

impl SettingsField {
    /// The field at position `i`, if there is one.
    pub fn from_index(i: usize) -> (r: Option<SettingsField>)
        ensures
            r == if i < 4 {
                Some(spec_settings_fields()[i as int])
            } else {
                None::<SettingsField>
            },
    {
        match i {
            0 => Some(SettingsField::Url),
            1 => Some(SettingsField::Network),
            2 => Some(SettingsField::RefreshInterval),
            3 => Some(SettingsField::AnalysisStart),
            _ => None,
        }
    }
}

/// What the settings tab asks of the program once a key is handled.
pub enum SettingsCommand {
    /// Reconnect with these settings.
    Reconnect(AppConfig),
}

/// The status note after the settings were saved (or not) and a
/// reconnection was asked for.
pub open spec fn save_note(saved: Result<(), Seq<char>>, reconnect_queued: bool) -> (Seq<char>, bool) {
    match saved {
        Err(e) => ("Save failed: "@ + e, true),
        Ok(_) => if reconnect_queued {
            ("Saved & reconnecting..."@, false)
        } else {
            ("Saved (reconnect pending)"@, false)
        },
    }
}

/// Records how an automatic save went: the error when the settings could not
/// be written; otherwise whether the reconnection with them was queued.
pub fn record_save_outcome(state: &mut SettingsState, saved: Result<(), String>, reconnect_queued: bool)
    ensures
        final(state).status_message matches Some((m, is_err)) && (m@, is_err) == save_note(
            match saved {
                Ok(_) => Ok(()),
                Err(e) => Err(e@),
            },
            reconnect_queued,
        ),
        final(state).config == old(state).config,
        final(state).selected_field == old(state).selected_field,
        final(state).editing == old(state).editing,
        final(state).edit_buffer == old(state).edit_buffer,
{
    match saved {
        Err(e) => {
            let mut m = String::from_str("Save failed: ");
            m.append(e.as_str());
            state.status_message = Some((m, true));
        },
        Ok(()) => {
            if reconnect_queued {
                state.status_message = Some((String::from_str("Saved & reconnecting..."), false));
            } else {
                state.status_message = Some((String::from_str("Saved (reconnect pending)"), false));
            }
        },
    }
}

/// Records how reloading the settings from disk went: the loaded settings
/// replace the edited ones, or the error is shown and they stay.
pub fn record_reload_outcome(state: &mut SettingsState, loaded: Result<AppConfig, String>)
    ensures
        match loaded {
            Ok(c) => {
                &&& final(state).config == c
                &&& final(state).status_message matches Some((m, is_err)) && m@
                    == "Config reloaded"@ && !is_err
            },
            Err(e) => {
                &&& final(state).config == old(state).config
                &&& final(state).status_message matches Some((m, is_err)) && m@ == "Load failed: "@
                    + e@ && is_err
            },
        },
        final(state).selected_field == old(state).selected_field,
        final(state).editing == old(state).editing,
        final(state).edit_buffer == old(state).edit_buffer,
{
    match loaded {
        Ok(c) => {
            state.config = c;
            state.status_message = Some((String::from_str("Config reloaded"), false));
        },
        Err(e) => {
            let mut m = String::from_str("Load failed: ");
            m.append(e.as_str());
            state.status_message = Some((m, true));
        },
    }
}

/// The text the RPC explorer shows for an answer: the answer, or the error
/// after `Error: `.
pub fn explorer_response(result: Result<String, String>) -> (r: String)
    ensures
        r@ == match result {
            Ok(t) => t@,
            Err(e) => "Error: "@ + e@,
        },
{
    match result {
        Ok(t) => t,
        Err(e) => {
            let mut m = String::from_str("Error: ");
            m.append(e.as_str());
            m
        },
    }
}

/// The value of a decimal number written with an optional `+` sign, when it
/// fits in a `u64`.
pub open spec fn digits_value(s: Seq<char>) -> int
    decreases s.len(),
{
    if s.len() == 0 {
        0
    } else {
        digits_value(s.drop_last()) * 10 + (s.last() as int - 48)
    }
}

pub open spec fn all_digits(s: Seq<char>) -> bool {
    forall|i: int| 0 <= i < s.len() ==> '0' <= #[trigger] s[i] <= '9'
}

/// `s` read as an unsigned decimal number: an optional `+`, then at least one
/// digit and nothing else, its value at most `u64::MAX`.
pub open spec fn parse_u64_spec(s: Seq<char>) -> Option<u64> {
    let d = if s.len() > 0 && s[0] == '+' {
        s.drop_first()
    } else {
        s
    };
    if d.len() > 0 && all_digits(d) && digits_value(d) <= u64::MAX {
        Some(digits_value(d) as u64)
    } else {
        None
    }
}

proof fn lemma_digits_value_nonneg(s: Seq<char>)
    requires
        all_digits(s),
    ensures
        digits_value(s) >= 0,
    decreases s.len(),
{
    if s.len() > 0 {
        lemma_digits_value_nonneg(s.drop_last());
    }
}

/// Extending a number by a digit never makes it smaller.
proof fn lemma_digits_value_grows(s: Seq<char>, n: int)
    requires
        all_digits(s),
        0 <= n <= s.len(),
    ensures
        digits_value(s.take(n)) <= digits_value(s),
    decreases s.len() - n,
{
    if n < s.len() {
        lemma_digits_value_grows(s, n + 1);
        assert(s.take(n + 1).drop_last() =~= s.take(n));
        lemma_digits_value_nonneg(s.take(n));
    } else {
        assert(s.take(n) =~= s);
    }
}

/// Reads `s` as an unsigned decimal number, as `str::parse::<u64>` does.
pub fn parse_u64(s: &str) -> (r: Option<u64>)
    ensures
        r == parse_u64_spec(s@),
{
    let n = s.unicode_len();
    let mut start: usize = 0;
    if n > 0 && s.get_char(0) == '+' {
        start = 1;
    }
    let ghost d = if s@.len() > 0 && s@[0] == '+' {
        s@.drop_first()
    } else {
        s@
    };
    proof {
        assert(d =~= s@.skip(start as int));
    }
    if start >= n {
        return None;
    }
    let mut value: u64 = 0;
    let mut i = start;
    while i < n
        invariant
            n == s@.len(),
            start <= i <= n,
            start < n,
            d == s@.skip(start as int),
            d == (if s@.len() > 0 && s@[0] == '+' {
                s@.drop_first()
            } else {
                s@
            }),
            all_digits(d.take(i - start)),
            value == digits_value(d.take(i - start)),
        decreases n - i,
    {
        let c = s.get_char(i);
        proof {
            assert(d.take(i + 1 - start).drop_last() =~= d.take(i - start));
            assert(d.take(i + 1 - start).last() == c);
        }
        if c < '0' || c > '9' {
            proof {
                assert(!all_digits(d)) by {
                    assert(d[i - start] == c);
                }
            }
            return None;
        }
        let digit = (c as u32 - 48) as u64;
        match value.checked_mul(10) {
            Some(v10) => {
                match v10.checked_add(digit) {
                    Some(v) => {
                        value = v;
                    },
                    None => {
                        proof {
                            assert(all_digits(d.take(i + 1 - start))) by {
                                assert forall|k: int| 0 <= k < i + 1 - start implies '0' <= #[trigger] d.take(i + 1 - start)[k] <= '9' by {
                                    if k < i - start {
                                        assert(d.take(i + 1 - start)[k] == d.take(i - start)[k]);
                                    }
                                }
                            }
                            if all_digits(d) {
                                lemma_digits_value_grows(d, i + 1 - start);
                            }
                        }
                        return None;
                    },
                }
            },
            None => {
                proof {
                    lemma_digits_value_nonneg(d.take(i - start));
                    if all_digits(d) {
                        lemma_digits_value_grows(d, i + 1 - start);
                    }
                }
                return None;
            },
        }
        proof {
            assert forall|k: int| 0 <= k < i + 1 - start implies '0' <= #[trigger] d.take(i + 1 - start)[k] <= '9' by {
                if k < i - start {
                    assert(d.take(i + 1 - start)[k] == d.take(i - start)[k]);
                }
            }
        }
        i = i + 1;
    }
    proof {
        assert(d.take(i - start) =~= d);
    }
    Some(value)
}

/// The text shown for `field` when it is edited or listed.
pub open spec fn field_text(config: AppConfig, field: SettingsField) -> Seq<char> {
    match field {
        SettingsField::Url => match config.url {
            Some(u) => u@,
            None => Seq::empty(),
        },
        SettingsField::Network => config.network@,
        SettingsField::RefreshInterval => decimal(config.refresh_interval_ms as nat),
        SettingsField::AnalysisStart => if config.analyze_from_pruning_point {
            "Pruning Point"@
        } else {
            "Current"@
        },
    }
}

/// The current value of a settings field, as text.
pub fn get_field_value(config: &AppConfig, field: SettingsField) -> (r: String)
    ensures
        r@ == field_text(*config, field),
{
    match field {
        SettingsField::Url => match &config.url {
            Some(u) => u.clone(),
            None => String::new(),
        },
        SettingsField::Network => config.network.clone(),
        SettingsField::RefreshInterval => {
            let mut s = String::new();
            push_decimal(&mut s, config.refresh_interval_ms);
            proof {
                assert(s@ =~= decimal(config.refresh_interval_ms as nat));
            }
            s
        },
        SettingsField::AnalysisStart => {
            if config.analyze_from_pruning_point {
                String::from_str("Pruning Point")
            } else {
                String::from_str("Current")
            }
        },
    }
}

/// Smallest polling interval that settings accept, in milliseconds.
pub const MIN_REFRESH_INTERVAL_MS: u64 = 100;

/// `s` begins with `p`.
pub open spec fn starts_with(s: Seq<char>, p: Seq<char>) -> bool {
    p.len() <= s.len() && s.take(p.len() as int) == p
}

/// Whether `s` begins with `p`.
fn starts_with_str(s: &str, p: &str) -> (r: bool)
    ensures
        r == starts_with(s@, p@),
{
    let n = s.unicode_len();
    let m = p.unicode_len();
    if m > n {
        return false;
    }
    let mut i: usize = 0;
    while i < m
        invariant
            n == s@.len(),
            m == p@.len(),
            m <= n,
            i <= m,
            forall|k: int| 0 <= k < i ==> s@[k] == p@[k],
        decreases m - i,
    {
        if s.get_char(i) != p.get_char(i) {
            proof {
                assert(s@.take(m as int)[i as int] != p@[i as int]);
            }
            return false;
        }
        i = i + 1;
    }
    proof {
        assert(s@.take(m as int) =~= p@);
    }
    true
}

/// Node addresses are websocket URLs.
pub open spec fn is_ws_url(s: Seq<char>) -> bool {
    starts_with(s, "ws://"@) || starts_with(s, "wss://"@)
}

/// The message shown when an edited address is no websocket URL.
pub open spec fn url_error_text() -> Seq<char> {
    "URL must start with ws:// or wss://"@
}

/// The message shown when an edited interval is no number of at least 100.
pub open spec fn interval_error_text() -> Seq<char> {
    "Interval must be >= 100ms"@
}

/// `m` is an error message reading `text`.
pub open spec fn is_error_message(m: Option<(String, bool)>, text: Seq<char>) -> bool {
    m matches Some(p) && p.0@ == text && p.1
}

/// `after` is `before` with the edited value `val` of `field` applied, and
/// `r` tells whether it was taken.
pub open spec fn edit_applied(
    before: SettingsState,
    after: SettingsState,
    field: SettingsField,
    val: Seq<char>,
    r: bool,
) -> bool {
    let t = trim_spec(val);
    match field {
        SettingsField::Url => if t.len() == 0 {
            &&& r
            &&& after == (SettingsState { config: AppConfig { url: None, ..before.config }, ..before })
        } else if is_ws_url(t) {
            &&& r
            &&& after.config.url matches Some(u) && u@ == t
            &&& after.config.network == before.config.network
            &&& after.config.refresh_interval_ms == before.config.refresh_interval_ms
            &&& after.config.analyze_from_pruning_point == before.config.analyze_from_pruning_point
            &&& after == (SettingsState { config: after.config, ..before })
        } else {
            &&& !r
            &&& after.config == before.config
            &&& is_error_message(after.status_message, url_error_text())
            &&& after == (SettingsState { status_message: after.status_message, ..before })
        },
        SettingsField::RefreshInterval => match parse_u64_spec(t) {
            Some(v) if v >= MIN_REFRESH_INTERVAL_MS => {
                &&& r
                &&& after == (SettingsState {
                    config: AppConfig { refresh_interval_ms: v, ..before.config },
                    ..before
                })
            },
            _ => {
                &&& !r
                &&& after.config == before.config
                &&& is_error_message(after.status_message, interval_error_text())
                &&& after == (SettingsState { status_message: after.status_message, ..before })
            },
        },
        _ => !r && after == before,
    }
}

/// Applies the edited value `val` of `field`: an address must be empty (no
/// address) or a websocket URL, an interval a number of at least 100 ms; the
/// other fields are cycled, not typed. Returns whether the value was taken;
/// a rejected value leaves an error message.
pub fn apply_field_edit(state: &mut SettingsState, field: SettingsField, val: &str) -> (r: bool)
    ensures
        edit_applied(*old(state), *final(state), field, val@, r),
{
    let trimmed = trim_str(val);
    match field {
        SettingsField::Url => {
            if trimmed.is_empty() {
                state.config.url = None;
                true
            } else if starts_with_str(trimmed, "ws://") || starts_with_str(trimmed, "wss://") {
                state.config.url = Some(trimmed.to_owned());
                true
            } else {
                state.status_message = Some((String::from_str("URL must start with ws:// or wss://"), true));
                false
            }
        },
        SettingsField::Network => false,
        SettingsField::RefreshInterval => {
            match parse_u64(trimmed) {
                Some(v) => {
                    if v >= MIN_REFRESH_INTERVAL_MS {
                        state.config.refresh_interval_ms = v;
                        return true;
                    }
                },
                None => {},
            }
            state.status_message = Some((String::from_str("Interval must be >= 100ms"), true));
            false
        },
        SettingsField::AnalysisStart => false,
    }
}

/// A key as the handlers see it.
#[derive(Debug, Clone, Copy, PartialEq, Eq, Structural)]
pub enum KeyCode {
    Char(char),
    Esc,
    Enter,
    Backspace,
    Delete,
    Left,
    Right,
    Up,
    Down,
    Home,
    End,
    PageUp,
    PageDown,
    Tab,
    BackTab,
    Other,
}

/// A key press, with whether Control was held.
#[derive(Debug, Clone, Copy, PartialEq, Eq, Structural)]
pub struct KeyEvent {
    pub code: KeyCode,
    pub ctrl: bool,
}

/// Outside work that a key asks for.
pub enum KeyAction {
    Nothing,
    /// Copy this text to the clipboard.
    Copy(String),
    /// Open this address in the browser.
    Open(String),
    /// Run this RPC method and show its answer in the explorer.
    RunRpc(String),
    /// Save the settings and reconnect with them.
    SaveAndReconnect,
    /// Load the settings from disk again.
    ReloadConfig,
    /// Recompute the shown view of this analytics panel.
    RefreshView(usize),
    /// Show the details of this mempool entry.
    ShowMempoolEntry(usize),
}

/// What the handlers read of the node's data: the ids of the mempool
/// entries and the names listed in the mining panels, in display order.
pub struct KeyContext {
    pub mempool_ids: Vec<String>,
    pub miners: Vec<String>,
    pub pools: Vec<String>,
    pub versions: Vec<String>,
}

/// The block explorer that `o` opens.
pub open spec fn explorer_base() -> Seq<char> {
    "https://kaspa.stream"@
}

pub open spec fn sat_sub(a: usize, b: usize) -> usize {
    if a >= b {
        (a - b) as usize
    } else {
        0
    }
}

pub open spec fn sat_add(a: usize, b: usize) -> usize {
    if a + b <= usize::MAX {
        (a + b) as usize
    } else {
        usize::MAX
    }
}

/// The names of the active mining panel.
pub open spec fn mining_names(panel: MiningPanel, ctx: KeyContext) -> Seq<String> {
    match panel {
        MiningPanel::Miners => ctx.miners@,
        MiningPanel::Pools => ctx.pools@,
        MiningPanel::Versions => ctx.versions@,
    }
}

/// The mining tab after `key`, with `len` names in the active panel.
pub open spec fn mining_after(t: MiningTabState, key: KeyCode, len: usize) -> MiningTabState {
    let sel = spec_selected(t);
    match key {
        KeyCode::Left | KeyCode::Char('h') => MiningTabState { active_panel: prev_panel(t.active_panel), ..t },
        KeyCode::Right | KeyCode::Char('l') => MiningTabState { active_panel: next_panel(t.active_panel), ..t },
        KeyCode::Up | KeyCode::Char('k') => with_selected(t, sat_sub(sel, 1)),
        KeyCode::Down | KeyCode::Char('j') => if sel < sat_sub(len, 1) {
            with_selected(t, (sel + 1) as usize)
        } else {
            t
        },
        KeyCode::Home | KeyCode::Char('g') => with_selected(t, 0),
        KeyCode::End | KeyCode::Char('G') => with_selected(t, sat_sub(len, 1)),
        _ => t,
    }
}

/// `a` opens `base/kind/name` in the browser.
pub open spec fn opens(a: KeyAction, kind: Seq<char>, name: Seq<char>) -> bool {
    a matches KeyAction::Open(u) && u@ == explorer_base() + kind + name
}

/// Builds `base/kind/name`.
fn explorer_url(kind: &str, name: &str) -> (r: String)
    ensures
        r@ == explorer_base() + kind@ + name@,
{
    let mut u = String::from_str("https://kaspa.stream");
    u.append(kind);
    u.append(name);
    u
}

/// The mining-tab part of what a key does.
pub open spec fn mining_rel(before: App, after: App, key: KeyCode, ctx: KeyContext, r: KeyAction) -> bool {
    &&& after == (App {
            mining_tab: mining_after(
                before.mining_tab,
                key,
                mining_names(before.mining_tab.active_panel, ctx).len() as usize,
            ),
            ..before
        })
    &&& ({
            let names = mining_names(before.mining_tab.active_panel, ctx);
            let sel = spec_selected(before.mining_tab);
            if key == KeyCode::Char('o') && sel < names.len() && starts_with(
                names[sel as int]@,
                "kaspa:"@,
            ) {
                opens(r, "/address/"@, names[sel as int]@)
            } else {
                r is Nothing
            }
        })
}

/// Moves through the mining panels and their lists; `o` opens the selected
/// name in the block explorer when it is an address.
pub fn handle_mining_keys(app: &mut App, key: KeyCode, ctx: &KeyContext) -> (r: KeyAction)
    ensures
        mining_rel(*old(app), *final(app), key, *ctx, r),
{
    let names = match app.mining_tab.active_panel {
        MiningPanel::Miners => &ctx.miners,
        MiningPanel::Pools => &ctx.pools,
        MiningPanel::Versions => &ctx.versions,
    };
    let len = names.len();
    let sel = app.mining_tab.selected();
    match key {
        KeyCode::Left | KeyCode::Char('h') => {
            app.mining_tab.active_panel = app.mining_tab.active_panel.prev();
        },
        KeyCode::Right | KeyCode::Char('l') => {
            app.mining_tab.active_panel = app.mining_tab.active_panel.next();
        },
        KeyCode::Up | KeyCode::Char('k') => {
            app.mining_tab.set_selected(sel.saturating_sub(1));
        },
        KeyCode::Down | KeyCode::Char('j') => {
            if sel < len.saturating_sub(1) {
                app.mining_tab.set_selected(sel + 1);
            }
        },
        KeyCode::Home | KeyCode::Char('g') => {
            app.mining_tab.set_selected(0);
        },
        KeyCode::End | KeyCode::Char('G') => {
            app.mining_tab.set_selected(len.saturating_sub(1));
        },
        KeyCode::Char('o') => {
            if sel < len {
                let name = names[sel].as_str();
                if starts_with_str(name, "kaspa:") {
                    return KeyAction::Open(explorer_url("/address/", name));
                }
            }
        },
        _ => {},
    }
    KeyAction::Nothing
}

/// The RPC explorer after `key` (the method list is not empty).
pub open spec fn explorer_after(e: RpcExplorerState, key: KeyCode) -> RpcExplorerState {
    let n = e.available_methods@.len();
    match key {
        KeyCode::Up => if e.selected_method > 0 {
            RpcExplorerState { selected_method: (e.selected_method - 1) as usize, ..e }
        } else {
            e
        },
        KeyCode::Down => if n > 0 && e.selected_method < n - 1 {
            RpcExplorerState { selected_method: (e.selected_method + 1) as usize, ..e }
        } else {
            e
        },
        KeyCode::Enter => RpcExplorerState { is_loading: true, scroll_offset: 0, ..e },
        KeyCode::Char('j') => RpcExplorerState { scroll_offset: sat_add(e.scroll_offset, 1), ..e },
        KeyCode::Char('J') => RpcExplorerState { scroll_offset: sat_add(e.scroll_offset, 10), ..e },
        KeyCode::Char('k') => RpcExplorerState { scroll_offset: sat_sub(e.scroll_offset, 1), ..e },
        KeyCode::Char('K') => RpcExplorerState { scroll_offset: sat_sub(e.scroll_offset, 10), ..e },
        KeyCode::PageDown => RpcExplorerState { scroll_offset: sat_add(e.scroll_offset, 20), ..e },
        KeyCode::PageUp => RpcExplorerState { scroll_offset: sat_sub(e.scroll_offset, 20), ..e },
        KeyCode::Home | KeyCode::Char('g') => RpcExplorerState { scroll_offset: 0, ..e },
        KeyCode::End | KeyCode::Char('G') => RpcExplorerState { scroll_offset: usize::MAX, ..e },
        _ => e,
    }
}

/// The RPC-explorer part of what a key does.
pub open spec fn explorer_rel(before: App, after: App, key: KeyCode, r: KeyAction) -> bool {
    let e = before.rpc_explorer;
    if e.available_methods@.len() == 0 {
        after == before && r is Nothing
    } else {
        &&& after == (App { rpc_explorer: explorer_after(e, key), ..before })
        &&& if key == KeyCode::Enter {
            r matches KeyAction::RunRpc(m) && m@ == e.available_methods@[e.selected_method as int]@
        } else {
            r is Nothing
        }
    }
}

/// Moves through the RPC methods and scrolls the answer; Enter runs the
/// selected method. Nothing happens while there are no methods.
pub fn handle_rpc_explorer_keys(app: &mut App, key: KeyCode) -> (r: KeyAction)
    requires
        key == KeyCode::Enter ==> old(app).rpc_explorer.available_methods@.len() == 0
            || old(app).rpc_explorer.selected_method < old(app).rpc_explorer.available_methods@.len(),
    ensures
        explorer_rel(*old(app), *final(app), key, r),
{
    let e = &mut app.rpc_explorer;
    if e.available_methods.len() == 0 {
        return KeyAction::Nothing;
    }
    match key {
        KeyCode::Up => {
            if e.selected_method > 0 {
                e.selected_method = e.selected_method - 1;
            }
        },
        KeyCode::Down => {
            let len = e.available_methods.len();
            if len > 0 && e.selected_method < len - 1 {
                e.selected_method = e.selected_method + 1;
            }
        },
        KeyCode::Enter => {
            let method = e.available_methods[e.selected_method];
            e.is_loading = true;
            e.scroll_offset = 0;
            return KeyAction::RunRpc(method.to_owned());
        },
        KeyCode::Char('j') => {
            e.scroll_offset = e.scroll_offset.saturating_add(1);
        },
        KeyCode::Char('J') => {
            e.scroll_offset = e.scroll_offset.saturating_add(10);
        },
        KeyCode::Char('k') => {
            e.scroll_offset = e.scroll_offset.saturating_sub(1);
        },
        KeyCode::Char('K') => {
            e.scroll_offset = e.scroll_offset.saturating_sub(10);
        },
        KeyCode::PageDown => {
            e.scroll_offset = e.scroll_offset.saturating_add(20);
        },
        KeyCode::PageUp => {
            e.scroll_offset = e.scroll_offset.saturating_sub(20);
        },
        KeyCode::Home | KeyCode::Char('g') => {
            e.scroll_offset = 0;
        },
        KeyCode::End | KeyCode::Char('G') => {
            e.scroll_offset = usize::MAX;
        },
        _ => {},
    }
    KeyAction::Nothing
}

/// The mempool-tab part of what a key does.
pub open spec fn mempool_rel(before: App, after: App, key: KeyCode, ctx: KeyContext, r: KeyAction) -> bool {
    ({
            let n = ctx.mempool_ids@.len();
            let sel = before.mempool_selected;
            if before.mempool_detail is Some {
                &&& r is Nothing
                &&& after == if key == KeyCode::Esc {
                    App { mempool_detail: None, ..before }
                } else {
                    before
                }
            } else {
                &&& after == (App {
                    mempool_selected: match key {
                        KeyCode::Up | KeyCode::Char('k') => sat_sub(sel, 1),
                        KeyCode::Down | KeyCode::Char('j') => if n > 0 && sel < n - 1 {
                            (sel + 1) as usize
                        } else {
                            sel
                        },
                        KeyCode::Home | KeyCode::Char('g') => 0,
                        KeyCode::End | KeyCode::Char('G') => if n > 0 {
                            (n - 1) as usize
                        } else {
                            sel
                        },
                        _ => sel,
                    },
                    ..before
                })
                &&& if key == KeyCode::Char('o') && sel < n {
                    opens(r, "/tx/"@, ctx.mempool_ids@[sel as int]@)
                } else if key == KeyCode::Enter && sel < n {
                    r == KeyAction::ShowMempoolEntry(sel)
                } else {
                    r is Nothing
                }
            }
        })
}

/// Moves through the mempool entries; `o` opens the selected transaction in
/// the block explorer and Enter asks for its details. While details are
/// shown, only Esc does something: it closes them.
pub fn handle_mempool_keys(app: &mut App, key: KeyCode, ctx: &KeyContext) -> (r: KeyAction)
    ensures
        mempool_rel(*old(app), *final(app), key, *ctx, r),
{
    if app.mempool_detail.is_some() {
        if key == KeyCode::Esc {
            app.mempool_detail = None;
        }
        return KeyAction::Nothing;
    }
    let n = ctx.mempool_ids.len();
    let sel = app.mempool_selected;
    match key {
        KeyCode::Up | KeyCode::Char('k') => {
            app.mempool_selected = sel.saturating_sub(1);
        },
        KeyCode::Down | KeyCode::Char('j') => {
            if n > 0 && sel < n - 1 {
                app.mempool_selected = sel + 1;
            }
        },
        KeyCode::Home | KeyCode::Char('g') => {
            app.mempool_selected = 0;
        },
        KeyCode::End | KeyCode::Char('G') => {
            if n > 0 {
                app.mempool_selected = n - 1;
            }
        },
        KeyCode::Char('o') => {
            if sel < n {
                return KeyAction::Open(explorer_url("/tx/", ctx.mempool_ids[sel].as_str()));
            }
        },
        KeyCode::Enter => {
            if sel < n {
                return KeyAction::ShowMempoolEntry(sel);
            }
        },
        _ => {},
    }
    KeyAction::Nothing
}

/// The analytics panel reached from panel `focus` by `key`. The panels form
/// a grid: 0 1 2 on top, 3 and 4 in the middle, 5 across the bottom.
pub open spec fn focus_after(focus: usize, key: KeyCode) -> usize {
    match key {
        KeyCode::Left | KeyCode::Char('h') => match focus {
            1 => 0,
            2 => 1,
            4 => 3,
            _ => focus,
        },
        KeyCode::Right | KeyCode::Char('l') => match focus {
            0 => 1,
            1 => 2,
            3 => 4,
            _ => focus,
        },
        KeyCode::Up | KeyCode::Char('k') => match focus {
            3 => 0,
            4 => 2,
            5 => 3,
            _ => focus,
        },
        KeyCode::Down | KeyCode::Char('j') => match focus {
            0 | 1 => 3,
            2 => 4,
            3 | 4 => 5,
            _ => focus,
        },
        _ => focus,
    }
}

/// The analytics-tab part of what a key does.
pub open spec fn analytics_rel(before: App, after: App, key: KeyCode, r: KeyAction) -> bool {
    ({
            let a = before.analytics;
            let f = a.focus;
            if a.reorg_notification is Some && key == KeyCode::Esc {
                &&& r is Nothing
                &&& after.analytics.reorg_notification is None
                &&& after == (App { analytics: after.analytics, ..before })
                &&& after.analytics == (crate::screen::AnalyticsState { reorg_notification: None, ..a })
            } else if key == KeyCode::Char('v') && f < 6 {
                &&& r is Nothing
                &&& after.analytics.view_modes@ == a.view_modes@.update(f as int, toggled(a.view_modes@[f as int]))
                &&& after == (App {
                    analytics: crate::screen::AnalyticsState { view_modes: after.analytics.view_modes, ..a },
                    ..before
                })
            } else if key == KeyCode::Char('t') && f < 6 {
                &&& r == KeyAction::RefreshView(f)
                &&& after.analytics.time_windows@ == a.time_windows@.update(f as int, next_window(a.time_windows@[f as int]))
                &&& after == (App {
                    analytics: crate::screen::AnalyticsState { time_windows: after.analytics.time_windows, ..a },
                    ..before
                })
            } else {
                &&& r is Nothing
                &&& after == (App {
                    analytics: crate::screen::AnalyticsState { focus: focus_after(f, key), ..a },
                    ..before
                })
            }
        })
}

/// Moves between the analytics panels; `v` toggles the focused panel between
/// table and chart, `t` cycles its time window and asks for its view to be
/// recomputed. Esc first dismisses a reorg note.
pub fn handle_analytics_keys(app: &mut App, key: KeyCode) -> (r: KeyAction)
    ensures
        analytics_rel(*old(app), *final(app), key, r),
{
    if app.analytics.reorg_notification.is_some() && key == KeyCode::Esc {
        app.analytics.reorg_notification = None;
        return KeyAction::Nothing;
    }
    let f = app.analytics.focus;
    match key {
        KeyCode::Left | KeyCode::Char('h') => {
            if f == 1 {
                app.analytics.focus = 0;
            } else if f == 2 {
                app.analytics.focus = 1;
            } else if f == 4 {
                app.analytics.focus = 3;
            }
        },
        KeyCode::Right | KeyCode::Char('l') => {
            if f == 0 {
                app.analytics.focus = 1;
            } else if f == 1 {
                app.analytics.focus = 2;
            } else if f == 3 {
                app.analytics.focus = 4;
            }
        },
        KeyCode::Up | KeyCode::Char('k') => {
            if f == 3 {
                app.analytics.focus = 0;
            } else if f == 4 {
                app.analytics.focus = 2;
            } else if f == 5 {
                app.analytics.focus = 3;
            }
        },
        KeyCode::Down | KeyCode::Char('j') => {
            if f == 0 || f == 1 {
                app.analytics.focus = 3;
            } else if f == 2 {
                app.analytics.focus = 4;
            } else if f == 3 || f == 4 {
                app.analytics.focus = 5;
            }
        },
        KeyCode::Char('v') => {
            if f < 6 {
                let mut m = app.analytics.view_modes[f];
                m.toggle();
                app.analytics.view_modes[f] = m;
            }
        },
        KeyCode::Char('t') => {
            if f < 6 {
                let mut w = app.analytics.time_windows[f];
                w.cycle();
                app.analytics.time_windows[f] = w;
                return KeyAction::RefreshView(f);
            }
        },
        _ => {},
    }
    KeyAction::Nothing
}

/// The settings tab after a key, while a field is edited: Esc drops the
/// edit, Enter applies it, Backspace and characters change the text.
pub open spec fn editing_after(
    before: SettingsState,
    after: SettingsState,
    key: KeyCode,
    r: KeyAction,
) -> bool {
    match key {
        KeyCode::Esc => {
            &&& r is Nothing
            &&& !after.editing
            &&& after.edit_buffer@.len() == 0
            &&& after == (SettingsState { editing: false, edit_buffer: after.edit_buffer, ..before })
        },
        KeyCode::Enter => if before.selected_field < 4 {
            exists|mid: SettingsState, taken: bool|
                #![trigger edit_applied(mid, after, spec_settings_fields()[before.selected_field as int], before.edit_buffer@, taken)]
                {
                    &&& !mid.editing
                    &&& mid.edit_buffer@.len() == 0
                    &&& mid == (SettingsState { editing: false, edit_buffer: mid.edit_buffer, ..before })
                    &&& edit_applied(
                        mid,
                        after,
                        spec_settings_fields()[before.selected_field as int],
                        before.edit_buffer@,
                        taken,
                    )
                    &&& if taken {
                        r is SaveAndReconnect
                    } else {
                        r is Nothing
                    }
                }
        } else {
            &&& r is Nothing
            &&& !after.editing
            &&& after.edit_buffer@.len() == 0
            &&& after == (SettingsState { editing: false, edit_buffer: after.edit_buffer, ..before })
        },
        KeyCode::Backspace => {
            &&& r is Nothing
            &&& after.edit_buffer@ == if before.edit_buffer@.len() > 0 {
                before.edit_buffer@.drop_last()
            } else {
                before.edit_buffer@
            }
            &&& after == (SettingsState { edit_buffer: after.edit_buffer, ..before })
        },
        KeyCode::Char(c) => {
            &&& r is Nothing
            &&& after.edit_buffer@ == before.edit_buffer@.push(c)
            &&& after == (SettingsState { edit_buffer: after.edit_buffer, ..before })
        },
        _ => r is Nothing && after == before,
    }
}

/// The settings tab after a key, while no field is edited: Up and Down move
/// between the fields; Enter, Left or Right cycle the network or the
/// analysis start and ask for the settings to be saved, and Enter starts
/// editing the address or the interval; `r` reloads the settings. Any key
/// clears the status message.
pub open spec fn browsing_after(
    before: SettingsState,
    after: SettingsState,
    key: KeyCode,
    r: KeyAction,
) -> bool {
    let sel = before.selected_field;
    let cleared = SettingsState { status_message: None, ..before };
    let field = if sel < 4 {
        Some(spec_settings_fields()[sel as int])
    } else {
        None::<SettingsField>
    };
    match key {
        KeyCode::Up => r is Nothing && after == (SettingsState { selected_field: sat_sub(sel, 1), ..cleared }),
        KeyCode::Down => r is Nothing && after == (SettingsState {
            selected_field: if sel < 3 {
                (sel + 1) as usize
            } else {
                sel
            },
            ..cleared
        }),
        KeyCode::Enter | KeyCode::Left | KeyCode::Right => match field {
            Some(SettingsField::Network) => {
                &&& r is SaveAndReconnect
                &&& after.config.network@ == next_in(spec_valid_networks(), before.config.network@, 0)
                &&& after.config.url == before.config.url
                &&& after.config.refresh_interval_ms == before.config.refresh_interval_ms
                &&& after.config.analyze_from_pruning_point == before.config.analyze_from_pruning_point
                &&& after == (SettingsState { config: after.config, ..cleared })
            },
            Some(SettingsField::AnalysisStart) => {
                &&& r is SaveAndReconnect
                &&& after == (SettingsState {
                    config: AppConfig {
                        analyze_from_pruning_point: !before.config.analyze_from_pruning_point,
                        ..before.config
                    },
                    ..cleared
                })
            },
            Some(f) => if key == KeyCode::Enter {
                &&& r is Nothing
                &&& after.editing
                &&& after.edit_buffer@ == field_text(before.config, f)
                &&& after == (SettingsState { editing: true, edit_buffer: after.edit_buffer, ..cleared })
            } else {
                r is Nothing && after == cleared
            },
            None => r is Nothing && after == cleared,
        },
        KeyCode::Char('r') => r is ReloadConfig && after == cleared,
        _ => r is Nothing && after == cleared,
    }
}

/// The settings-tab part of what a key does.
pub open spec fn settings_rel(before: App, after: App, key: KeyCode, r: KeyAction) -> bool {
    &&& after == (App { settings: after.settings, ..before })
    &&& if before.settings.editing {
        editing_after(before.settings, after.settings, key, r)
    } else {
        browsing_after(before.settings, after.settings, key, r)
    }
}

/// Keys of the settings tab.
pub fn handle_settings_keys(app: &mut App, key: KeyCode) -> (r: KeyAction)
    ensures
        settings_rel(*old(app), *final(app), key, r),
{
    let state = &mut app.settings;
    if state.editing {
        match key {
            KeyCode::Esc => {
                state.editing = false;
                state.edit_buffer.clear();
                KeyAction::Nothing
            },
            KeyCode::Enter => {
                let val = state.edit_buffer.clone();
                state.editing = false;
                state.edit_buffer.clear();
                let ghost mid = *state;
                match SettingsField::from_index(state.selected_field) {
                    Some(field) => {
                        let taken = apply_field_edit(state, field, val.as_str());
                        proof {
                            assert(edit_applied(mid, *state, spec_settings_fields()[old(app).settings.selected_field as int], old(app).settings.edit_buffer@, taken));
                        }
                        if taken {
                            KeyAction::SaveAndReconnect
                        } else {
                            KeyAction::Nothing
                        }
                    },
                    None => KeyAction::Nothing,
                }
            },
            KeyCode::Backspace => {
                let _ = state.edit_buffer.pop();
                KeyAction::Nothing
            },
            KeyCode::Char(c) => {
                state.edit_buffer.push(c);
                KeyAction::Nothing
            },
            _ => KeyAction::Nothing,
        }
    } else {
        state.status_message = None;
        match key {
            KeyCode::Up => {
                state.selected_field = state.selected_field.saturating_sub(1);
                KeyAction::Nothing
            },
            KeyCode::Down => {
                if state.selected_field < SETTINGS_FIELD_COUNT - 1 {
                    state.selected_field = state.selected_field + 1;
                }
                KeyAction::Nothing
            },
            KeyCode::Enter | KeyCode::Left | KeyCode::Right => {
                match SettingsField::from_index(state.selected_field) {
                    Some(SettingsField::Network) => {
                        state.config.cycle_network();
                        KeyAction::SaveAndReconnect
                    },
                    Some(SettingsField::AnalysisStart) => {
                        state.config.analyze_from_pruning_point = !state.config.analyze_from_pruning_point;
                        KeyAction::SaveAndReconnect
                    },
                    Some(field) => {
                        if key == KeyCode::Enter {
                            state.editing = true;
                            state.edit_buffer = get_field_value(&state.config, field);
                        }
                        KeyAction::Nothing
                    },
                    None => KeyAction::Nothing,
                }
            },
            KeyCode::Char('r') => KeyAction::ReloadConfig,
            _ => KeyAction::Nothing,
        }
    }
}

/// What a key does to the command line while it is open.
pub open spec fn command_key_view(v: CommandLineView, code: KeyCode) -> CommandLineView {
    match code {
        KeyCode::Esc => CommandLineView { show_output: false, ..v.deactivated() },
        KeyCode::Enter => v.after_submit(),
        KeyCode::Backspace => v.after_backspace(),
        KeyCode::Delete => v.after_delete(),
        KeyCode::Left => v.after_move_left(),
        KeyCode::Right => v.after_move_right(),
        KeyCode::Home => CommandLineView { cursor_pos: 0, ..v },
        KeyCode::End => CommandLineView { cursor_pos: v.bytes().len() as usize, ..v },
        KeyCode::Up => v.after_history_up(),
        KeyCode::Down => v.after_history_down(),
        KeyCode::Char(c) => v.with_char(c),
        _ => v,
    }
}

/// Keys while the command line is open: editing, history, Esc to close and
/// Enter to submit. Returns the submitted command.
pub fn handle_command_mode_keys(app: &mut App, code: KeyCode) -> (r: Option<String>)
    requires
        old(app).command_line@.wf(),
        old(app).command_line@.bytes().len() + 4 <= usize::MAX,
    ensures
        *final(app) == (App { command_line: final(app).command_line, ..*old(app) }),
        final(app).command_line@ == command_key_view(old(app).command_line@, code),
        match r {
            Some(cmd) => code == KeyCode::Enter && old(app).command_line@.submitted_command() == Some(cmd@),
            None => code != KeyCode::Enter || old(app).command_line@.submitted_command() is None,
        },
{
    let cl = &mut app.command_line;
    match code {
        KeyCode::Esc => {
            cl.deactivate();
            cl.show_output = false;
            proof {
                assert(cl@ =~= command_key_view(old(app).command_line@, code));
            }
            None
        },
        KeyCode::Enter => cl.submit(),
        KeyCode::Backspace => {
            cl.backspace();
            None
        },
        KeyCode::Delete => {
            cl.delete_char();
            None
        },
        KeyCode::Left => {
            cl.move_left();
            None
        },
        KeyCode::Right => {
            cl.move_right();
            None
        },
        KeyCode::Home => {
            cl.move_home();
            None
        },
        KeyCode::End => {
            cl.move_end();
            None
        },
        KeyCode::Up => {
            cl.history_up();
            None
        },
        KeyCode::Down => {
            cl.history_down();
            None
        },
        KeyCode::Char(c) => {
            cl.insert_char(c);
            None
        },
        _ => None,
    }
}

/// The text that `c` or a double click copies: the selected mempool
/// transaction, mining name or RPC method.
pub open spec fn focused_text(app: App, ctx: KeyContext) -> Option<Seq<char>> {
    match app.active_tab {
        Tab::Mempool => if app.mempool_selected < ctx.mempool_ids@.len() {
            Some(ctx.mempool_ids@[app.mempool_selected as int]@)
        } else {
            None
        },
        Tab::Mining => {
            let names = mining_names(app.mining_tab.active_panel, ctx);
            let sel = spec_selected(app.mining_tab);
            if sel < names.len() {
                Some(names[sel as int]@)
            } else {
                None
            }
        },
        Tab::RpcExplorer => if app.rpc_explorer.selected_method
            < app.rpc_explorer.available_methods@.len() {
            Some(app.rpc_explorer.available_methods@[app.rpc_explorer.selected_method as int]@)
        } else {
            None
        },
        _ => None,
    }
}

/// The text of the focused element, if there is one.
pub fn get_focused_text(app: &App, ctx: &KeyContext) -> (r: Option<String>)
    ensures
        match r {
            Some(t) => focused_text(*app, *ctx) == Some(t@),
            None => focused_text(*app, *ctx) is None,
        },
{
    match app.active_tab {
        Tab::Mempool => {
            if app.mempool_selected < ctx.mempool_ids.len() {
                Some(ctx.mempool_ids[app.mempool_selected].clone())
            } else {
                None
            }
        },
        Tab::Mining => {
            let names = match app.mining_tab.active_panel {
                MiningPanel::Miners => &ctx.miners,
                MiningPanel::Pools => &ctx.pools,
                MiningPanel::Versions => &ctx.versions,
            };
            let sel = app.mining_tab.selected();
            if sel < names.len() {
                Some(names[sel].clone())
            } else {
                None
            }
        },
        Tab::RpcExplorer => {
            if app.rpc_explorer.selected_method < app.rpc_explorer.available_methods.len() {
                Some(app.rpc_explorer.available_methods[app.rpc_explorer.selected_method].to_owned())
            } else {
                None
            }
        },
        _ => None,
    }
}

/// The character of the standard base64 alphabet (RFC 4648) for a six-bit
/// value: `A`-`Z`, `a`-`z`, `0`-`9`, `+`, `/`.
pub open spec fn base64_digit(v: int) -> char {
    if v < 26 {
        (65 + v) as char
    } else if v < 52 {
        (97 + (v - 26)) as char
    } else if v < 62 {
        (48 + (v - 52)) as char
    } else if v == 62 {
        '+'
    } else {
        '/'
    }
}

/// Standard padded base64 (RFC 4648): each group of three bytes gives four
/// characters; a last group of one or two bytes is padded with `=`.
pub open spec fn base64_text(b: Seq<u8>) -> Seq<char>
    decreases b.len(),
{
    if b.len() == 0 {
        seq![]
    } else if b.len() == 1 {
        let n = b[0] * 16;
        seq![base64_digit(n / 64), base64_digit(n % 64), '=', '=']
    } else if b.len() == 2 {
        let n = (b[0] * 256 + b[1]) * 4;
        seq![base64_digit(n / 4096), base64_digit((n / 64) % 64), base64_digit(n % 64), '=']
    } else {
        let n = b[0] * 65536 + b[1] * 256 + b[2];
        seq![
            base64_digit(n / 262144),
            base64_digit((n / 4096) % 64),
            base64_digit((n / 64) % 64),
            base64_digit(n % 64),
        ] + base64_text(b.skip(3))
    }
}

/// `base64::engine::general_purpose::STANDARD.encode` on the UTF-8 bytes of
/// `text`: the standard alphabet with padding, as `base64_text` states it.
#[verifier::external_body]
fn base64_encode(text: &str) -> (r: String)
    ensures
        r@ == base64_text(vstd::utf8::encode_utf8(text@)),
{
    base64::engine::general_purpose::STANDARD.encode(text)
}

/// The OSC 52 escape sequence that asks the terminal to put the base64 text
/// `encoded` on the clipboard.
pub open spec fn osc52_text(encoded: Seq<char>) -> Seq<char> {
    "\x1b]52;c;"@ + encoded + "\x07"@
}

/// Frames base64 text as an OSC 52 clipboard request.
pub fn osc52_frame(encoded: &str) -> (r: String)
    ensures
        r@ == osc52_text(encoded@),
{
    let mut r = String::from_str("\x1b]52;c;");
    r.append(encoded);
    r.append("\x07");
    r
}

/// The bytes to write to the terminal to copy `text` to the clipboard.
pub fn copy_to_clipboard(text: &str) -> (r: String)
    ensures
        r@ == osc52_text(base64_text(vstd::utf8::encode_utf8(text@))),
{
    let encoded = base64_encode(text);
    osc52_frame(encoded.as_str())
}

/// The note flashed after copying `t`.
pub open spec fn copied_text(t: Seq<char>) -> Seq<char> {
    "Copied: "@ + t
}

/// Copies the focused text, if any: flashes a note and asks for the copy.
fn copy_focused(app: &mut App, ctx: &KeyContext) -> (r: KeyAction)
    ensures
        copy_rel(*old(app), *final(app), *ctx, r),
{
    match get_focused_text(app, ctx) {
        Some(text) => {
            let mut flash = String::from_str("Copied: ");
            flash.append(text.as_str());
            app.clipboard_flash = Some(flash);
            KeyAction::Copy(text)
        },
        None => KeyAction::Nothing,
    }
}

/// Copying the focused text.
pub open spec fn copy_rel(before: App, after: App, ctx: KeyContext, r: KeyAction) -> bool {
    match focused_text(before, ctx) {
        Some(t) => {
            &&& r matches KeyAction::Copy(c) && c@ == t
            &&& after.clipboard_flash matches Some(f) && f@ == copied_text(t)
            &&& after == (App { clipboard_flash: after.clipboard_flash, ..before })
        },
        None => r is Nothing && after == before,
    }
}

/// The tab selected by digit `c`, `'1'` for the first.
pub open spec fn digit_tab(c: char) -> Option<Tab> {
    if '1' <= c <= '6' {
        Some(spec_all_tabs()[c as int - 49])
    } else {
        None
    }
}

/// What a key does to the scroll of the command output while it is shown.
pub open spec fn output_scroll_after(scroll: usize, code: KeyCode) -> usize {
    match code {
        KeyCode::Char('j') => sat_add(scroll, 1),
        KeyCode::Char('k') => sat_sub(scroll, 1),
        KeyCode::Char('J') => sat_add(scroll, 10),
        KeyCode::Char('K') => sat_sub(scroll, 10),
        KeyCode::Char('g') => 0,
        KeyCode::Char('G') => usize::MAX,
        _ => scroll,
    }
}

/// What a key does on the active tab when no global key applies.
pub open spec fn tab_key_rel(before: App, after: App, key: KeyCode, ctx: KeyContext, r: KeyAction) -> bool {
    match before.active_tab {
        Tab::Mining => mining_rel(before, after, key, ctx, r),
        Tab::RpcExplorer => explorer_rel(before, after, key, r),
        Tab::Mempool => mempool_rel(before, after, key, ctx, r),
        Tab::Analytics => analytics_rel(before, after, key, r),
        Tab::Settings => settings_rel(before, after, key, r),
        _ => after == before && r is Nothing,
    }
}

/// What a key does once the overlays let it through.
pub open spec fn global_key_rel(before: App, after: App, key: KeyEvent, ctx: KeyContext, r: KeyAction) -> bool {
    match key.code {
        KeyCode::Char('c') if key.ctrl => after == (App { should_quit: true, ..before }) && r is Nothing,
        KeyCode::Char('q') => r is Nothing && after == if before.quit_confirm {
            App { should_quit: true, ..before }
        } else {
            App { quit_confirm: true, ..before }
        },
        KeyCode::Esc => {
            let closed = App { command_line: after.command_line, ..before };
            &&& after.command_line@ == (crate::command_line::CommandLineView { show_output: false, ..before.command_line@ })
            &&& exists|mid: App| #![trigger mid.command_line]
                {
                    &&& mid == (App { command_line: mid.command_line, ..before })
                    &&& mid.command_line@ == (crate::command_line::CommandLineView { show_output: false, ..before.command_line@ })
                    &&& match before.active_tab {
                        Tab::Mempool => mempool_rel(mid, after, key.code, ctx, r),
                        Tab::Analytics => analytics_rel(mid, after, key.code, r),
                        _ => after == mid && r is Nothing,
                    }
                }
        },
        KeyCode::Char('?') => after == (App { show_help: true, ..before }) && r is Nothing,
        KeyCode::Char(':') => {
            &&& r is Nothing
            &&& after.command_line@ == before.command_line@.activated()
            &&& after == (App { command_line: after.command_line, ..before })
        },
        KeyCode::Char('p') => after == (App { paused: !before.paused, ..before }) && r is Nothing,
        KeyCode::Char('c') => copy_rel(before, after, ctx, r),
        KeyCode::Tab => r is Nothing && after == (App {
            active_tab: spec_all_tabs()[(spec_tab_index(before.active_tab) + 1) % 6],
            ..before
        }),
        KeyCode::BackTab => r is Nothing && after == (App {
            active_tab: spec_all_tabs()[(spec_tab_index(before.active_tab) + 5) % 6],
            ..before
        }),
        KeyCode::Char(c) if digit_tab(c) is Some => r is Nothing && after == (App {
            active_tab: digit_tab(c)->0,
            ..before
        }),
        _ => tab_key_rel(before, after, key.code, ctx, r),
    }
}

/// The state a key meets after it reset the quit confirmation (any key but `q` does).
pub open spec fn confirm_reset(app: App, key: KeyEvent) -> App {
    if key.code != KeyCode::Char('q') {
        App { quit_confirm: false, ..app }
    } else {
        app
    }
}

/// The global keys, then the keys of the active tab.
#[verifier::rlimit(40)]
fn handle_global_keys(app: &mut App, key: KeyEvent, ctx: &KeyContext) -> (r: KeyAction)
    requires
        key.code == KeyCode::Enter && old(app).active_tab == Tab::RpcExplorer ==> old(
            app,
        ).rpc_explorer.available_methods@.len() == 0 || old(app).rpc_explorer.selected_method
            < old(app).rpc_explorer.available_methods@.len(),
    ensures
        global_key_rel(*old(app), *final(app), key, *ctx, r),
{
    match key.code {
        KeyCode::Char('c') if key.ctrl => {
            app.should_quit = true;
            KeyAction::Nothing
        },
        KeyCode::Char('q') => {
            if app.quit_confirm {
                app.should_quit = true;
            } else {
                app.quit_confirm = true;
            }
            KeyAction::Nothing
        },
        KeyCode::Esc => {
            app.command_line.show_output = false;
            let ghost mid = *app;
            proof {
                assert(mid.command_line@ =~= (crate::command_line::CommandLineView { show_output: false, ..old(app).command_line@ }));
            }
            let a = match app.active_tab {
                Tab::Mempool => handle_mempool_keys(app, key.code, ctx),
                Tab::Analytics => handle_analytics_keys(app, key.code),
                _ => KeyAction::Nothing,
            };
            proof {
                assert(app.command_line@ =~= (crate::command_line::CommandLineView { show_output: false, ..old(app).command_line@ }));
            }
            a
        },
        KeyCode::Char('?') => {
            app.show_help = true;
            KeyAction::Nothing
        },
        KeyCode::Char(':') => {
            app.command_line.activate();
            KeyAction::Nothing
        },
        KeyCode::Char('p') => {
            app.paused = !app.paused;
            KeyAction::Nothing
        },
        KeyCode::Char('c') => copy_focused(app, ctx),
        KeyCode::Tab => {
            app.next_tab();
            KeyAction::Nothing
        },
        KeyCode::BackTab => {
            app.prev_tab();
            KeyAction::Nothing
        },
        KeyCode::Char(c) if '1' <= c && c <= '6' => {
            let tabs = Tab::all();
            app.active_tab = tabs[(c as u32 - 49) as usize];
            KeyAction::Nothing
        },
        _ => match app.active_tab {
            Tab::Mining => handle_mining_keys(app, key.code, ctx),
            Tab::RpcExplorer => handle_rpc_explorer_keys(app, key.code),
            Tab::Mempool => handle_mempool_keys(app, key.code, ctx),
            Tab::Analytics => handle_analytics_keys(app, key.code),
            Tab::Settings => handle_settings_keys(app, key.code),
            _ => KeyAction::Nothing,
        },
    }
}

/// Keys outside the command line. The help overlay takes every key and Esc,
/// `?` or `q` close it; the command output takes every key and scrolls with
/// `j`, `k`, `J`, `K`, `g`, `G`, Esc closing it; while a setting is edited
/// keys go to the settings tab; then come the global keys and last the keys
/// of the active tab. Returns whether an overlay took the key, and the
/// outside work the key asks for.
pub fn handle_normal_keys(app: &mut App, key: KeyEvent, ctx: &KeyContext) -> (r: (bool, KeyAction))
    requires
        key.code == KeyCode::Enter && old(app).active_tab == Tab::RpcExplorer ==> old(
            app,
        ).rpc_explorer.available_methods@.len() == 0 || old(app).rpc_explorer.selected_method
            < old(app).rpc_explorer.available_methods@.len(),
    ensures
        ({
            let a0 = confirm_reset(*old(app), key);
            if a0.show_help {
                &&& r.0
                &&& r.1 is Nothing
                &&& *final(app) == if key.code == KeyCode::Esc || key.code == KeyCode::Char('?')
                    || key.code == KeyCode::Char('q') {
                    App { show_help: false, ..a0 }
                } else {
                    a0
                }
            } else if a0.command_line.show_output && a0.command_line@.output.len() > 0 {
                &&& r.0
                &&& r.1 is Nothing
                &&& *final(app) == (App { command_line: final(app).command_line, ..a0 })
                &&& final(app).command_line@ == if key.code == KeyCode::Esc {
                    crate::command_line::CommandLineView { show_output: false, ..a0.command_line@ }
                } else {
                    crate::command_line::CommandLineView {
                        output_scroll: output_scroll_after(a0.command_line.output_scroll, key.code),
                        ..a0.command_line@
                    }
                }
            } else if a0.active_tab == Tab::Settings && a0.settings.editing {
                !r.0 && settings_rel(a0, *final(app), key.code, r.1)
            } else {
                !r.0 && global_key_rel(a0, *final(app), key, *ctx, r.1)
            }
        }),
{
    if key.code != KeyCode::Char('q') {
        app.quit_confirm = false;
    }
    if app.show_help {
        match key.code {
            KeyCode::Esc | KeyCode::Char('?') | KeyCode::Char('q') => {
                app.show_help = false;
            },
            _ => {},
        }
        return (true, KeyAction::Nothing);
    }
    if app.command_line.show_output && app.command_line.output.len() > 0 {
        let cl = &mut app.command_line;
        match key.code {
            KeyCode::Esc => {
                cl.show_output = false;
            },
            KeyCode::Char('j') => {
                cl.output_scroll = cl.output_scroll.saturating_add(1);
            },
            KeyCode::Char('k') => {
                cl.output_scroll = cl.output_scroll.saturating_sub(1);
            },
            KeyCode::Char('J') => {
                cl.output_scroll = cl.output_scroll.saturating_add(10);
            },
            KeyCode::Char('K') => {
                cl.output_scroll = cl.output_scroll.saturating_sub(10);
            },
            KeyCode::Char('g') => {
                cl.output_scroll = 0;
            },
            KeyCode::Char('G') => {
                cl.output_scroll = usize::MAX;
            },
            _ => {},
        }
        proof {
            assert(cl@ =~= if key.code == KeyCode::Esc {
                crate::command_line::CommandLineView { show_output: false, ..confirm_reset(*old(app), key).command_line@ }
            } else {
                crate::command_line::CommandLineView {
                    output_scroll: output_scroll_after(confirm_reset(*old(app), key).command_line.output_scroll, key.code),
                    ..confirm_reset(*old(app), key).command_line@
                }
            });
        }
        return (true, KeyAction::Nothing);
    }
    if app.active_tab == Tab::Settings && app.settings.editing {
        let a = handle_settings_keys(app, key.code);
        return (false, a);
    }
    let action = handle_global_keys(app, key, ctx);
    (false, action)
}

/// What the mouse did.
#[derive(Debug, Clone, Copy, PartialEq, Eq, Structural)]
pub enum MouseKind {
    ScrollDown,
    ScrollUp,
    LeftDown,
    Other,
}

/// A mouse event at a cell of the terminal.
#[derive(Debug, Clone, Copy, PartialEq, Eq, Structural)]
pub struct MouseEvent {
    pub kind: MouseKind,
    pub column: u16,
    pub row: u16,
}

/// Two clicks closer than this, in milliseconds, make a double click.
pub const DOUBLE_CLICK_MS: u128 = 400;

/// `Instant::duration_since` in whole milliseconds; nothing is promised of
/// the value, which the clock decides.
#[verifier::external_body]
fn millis_between(earlier: Instant, later: Instant) -> u128 {
    later.duration_since(earlier).as_millis()
}

/// Width of a tab title in the tab bar.
pub open spec fn tab_width(t: Tab) -> int {
    crate::app_state::spec_tab_title(t).len() as int
}

/// Column where tab `i` starts in the tab bar: titles are laid out from
/// column 2, three columns apart.
pub open spec fn tab_start(i: int) -> int
    decreases i,
{
    if i <= 0 {
        2
    } else {
        tab_start(i - 1) + tab_width(spec_all_tabs()[i - 1]) + 3
    }
}

/// The first tab, from tab `i` on, whose title covers column `col`.
pub open spec fn tab_at_column(col: int, i: int) -> Option<Tab>
    decreases 6 - i,
{
    if i >= 6 || i < 0 {
        None
    } else if tab_start(i) <= col < tab_start(i) + tab_width(spec_all_tabs()[i]) {
        Some(spec_all_tabs()[i])
    } else {
        tab_at_column(col, i + 1)
    }
}

proof fn lemma_tab_widths()
    ensures
        forall|i: int| 0 <= i < 6 ==> 0 <= #[trigger] tab_width(spec_all_tabs()[i]) <= 11,
{
    reveal_strlit("1:Dashboard");
    reveal_strlit("2:Mining");
    reveal_strlit("3:Mempool");
    reveal_strlit("4:Analytics");
    reveal_strlit("5:RPC Cmds");
    reveal_strlit("6:Settings");
}

proof fn lemma_tab_start_bound(i: int)
    requires
        0 <= i <= 6,
    ensures
        2 <= tab_start(i) <= 2 + 14 * i,
    decreases i,
{
    if i > 0 {
        lemma_tab_start_bound(i - 1);
        lemma_tab_widths();
    }
}

/// The tab whose title was clicked at column `col` of the tab bar.
fn clicked_tab(col: u16) -> (r: Option<Tab>)
    ensures
        r == tab_at_column(col as int, 0),
{
    let tabs = Tab::all();
    let mut x_pos: u16 = 2;
    let mut i: usize = 0;
    while i < tabs.len()
        invariant
            tabs@ == spec_all_tabs(),
            i <= 6,
            x_pos == tab_start(i as int),
            tab_at_column(col as int, 0) == tab_at_column(col as int, i as int),
        decreases 6 - i,
    {
        proof {
            lemma_tab_start_bound(i as int);
            lemma_tab_start_bound(i + 1);
            lemma_tab_widths();
            assert(tab_width(spec_all_tabs()[i as int]) <= 11);
        }
        let title = tabs[i].title();
        let n = title.unicode_len();
        assert(n <= 11);
        let width = n as u16;
        if col >= x_pos && col < x_pos + width {
            return Some(tabs[i]);
        }
        x_pos = x_pos + width + 3;
        i = i + 1;
    }
    None
}

/// What a mouse event does, when no help overlay is shown; a left click is a
/// double click when `double` holds.
pub open spec fn mouse_rel(before: App, after: App, mouse: MouseEvent, ctx: KeyContext, now: Instant, double: bool, r: KeyAction) -> bool {
    match mouse.kind {
        MouseKind::ScrollDown => r is Nothing && after == match before.active_tab {
            Tab::Mempool => if before.mempool_detail is None {
                let n = ctx.mempool_ids@.len() as usize;
                App {
                    mempool_selected: if before.mempool_selected < sat_sub(n, 1) {
                        (before.mempool_selected + 1) as usize
                    } else {
                        before.mempool_selected
                    },
                    ..before
                }
            } else {
                before
            },
            Tab::Mining => {
                let max = sat_sub(mining_names(before.mining_tab.active_panel, ctx).len() as usize, 1);
                let sel = spec_selected(before.mining_tab) + 3;
                App {
                    mining_tab: with_selected(before.mining_tab, if sel < max { sel as usize } else { max }),
                    ..before
                }
            },
            Tab::RpcExplorer => App {
                rpc_explorer: RpcExplorerState {
                    scroll_offset: sat_add(before.rpc_explorer.scroll_offset, 3),
                    ..before.rpc_explorer
                },
                ..before
            },
            _ => before,
        },
        MouseKind::ScrollUp => r is Nothing && after == match before.active_tab {
            Tab::Mempool => if before.mempool_detail is None {
                App { mempool_selected: sat_sub(before.mempool_selected, 1), ..before }
            } else {
                before
            },
            Tab::Mining => App {
                mining_tab: with_selected(before.mining_tab, sat_sub(spec_selected(before.mining_tab), 3)),
                ..before
            },
            Tab::RpcExplorer => App {
                rpc_explorer: RpcExplorerState {
                    scroll_offset: sat_sub(before.rpc_explorer.scroll_offset, 3),
                    ..before.rpc_explorer
                },
                ..before
            },
            _ => before,
        },
        MouseKind::LeftDown => {
            let clicked = App { last_click: Some(now), ..before };
            if double {
                copy_rel(clicked, after, ctx, r)
            } else {
                r is Nothing && after == if mouse.row < 3 && tab_at_column(mouse.column as int, 0) is Some {
                    App { active_tab: tab_at_column(mouse.column as int, 0)->0, ..clicked }
                } else {
                    clicked
                }
            }
        },
        MouseKind::Other => r is Nothing && after == before,
    }
}

/// Whether a click is a double click: there was an earlier click, and the
/// time since it, in milliseconds, is under [`DOUBLE_CLICK_MS`].
pub open spec fn is_double_click(last_click: Option<Instant>, since_last_click: Option<u128>) -> bool {
    &&& last_click is Some
    &&& since_last_click matches Some(ms) && ms < DOUBLE_CLICK_MS
}

/// Mouse events, given the milliseconds since the last click: a click
/// closes the help overlay, which takes every event; scrolling moves the
/// selection of the mempool and mining lists or scrolls the RPC answer; a
/// click on the tab bar activates a tab, and a double click copies the
/// focused text. Returns whether the help overlay took the event, and the
/// outside work it asks for.
pub fn handle_mouse_after(
    app: &mut App,
    mouse: MouseEvent,
    ctx: &KeyContext,
    now: Instant,
    since_last_click: Option<u128>,
) -> (r: (bool, KeyAction))
    requires
        !old(app).show_help && mouse.kind == MouseKind::ScrollDown && old(app).active_tab == Tab::Mining
            ==> spec_selected(old(app).mining_tab) + 3 <= usize::MAX,
    ensures
        old(app).show_help ==> r.0 && r.1 is Nothing && *final(app) == if mouse.kind == MouseKind::LeftDown {
            App { show_help: false, ..*old(app) }
        } else {
            *old(app)
        },
        !old(app).show_help ==> !r.0 && mouse_rel(
            *old(app),
            *final(app),
            mouse,
            *ctx,
            now,
            is_double_click(old(app).last_click, since_last_click),
            r.1,
        ),
{
    if app.show_help {
        if mouse.kind == MouseKind::LeftDown {
            app.show_help = false;
        }
        return (true, KeyAction::Nothing);
    }
    let ghost before = *app;
    let action = match mouse.kind {
        MouseKind::ScrollDown => {
            match app.active_tab {
                Tab::Mempool => {
                    if app.mempool_detail.is_none() {
                        let max = ctx.mempool_ids.len().saturating_sub(1);
                        if app.mempool_selected < max {
                            app.mempool_selected = app.mempool_selected + 1;
                        }
                    }
                },
                Tab::Mining => {
                    let len = match app.mining_tab.active_panel {
                        MiningPanel::Miners => ctx.miners.len(),
                        MiningPanel::Pools => ctx.pools.len(),
                        MiningPanel::Versions => ctx.versions.len(),
                    };
                    let max = len.saturating_sub(1);
                    let sel = app.mining_tab.selected() + 3;
                    app.mining_tab.set_selected(if sel < max { sel } else { max });
                },
                Tab::RpcExplorer => {
                    app.rpc_explorer.scroll_offset = app.rpc_explorer.scroll_offset.saturating_add(3);
                },
                _ => {},
            }
            proof {
                assert(mouse_rel(before, *app, mouse, *ctx, now, false, KeyAction::Nothing));
            }
            KeyAction::Nothing
        },
        MouseKind::ScrollUp => {
            match app.active_tab {
                Tab::Mempool => {
                    if app.mempool_detail.is_none() {
                        app.mempool_selected = app.mempool_selected.saturating_sub(1);
                    }
                },
                Tab::Mining => {
                    let sel = app.mining_tab.selected();
                    app.mining_tab.set_selected(sel.saturating_sub(3));
                },
                Tab::RpcExplorer => {
                    app.rpc_explorer.scroll_offset = app.rpc_explorer.scroll_offset.saturating_sub(3);
                },
                _ => {},
            }
            proof {
                assert(mouse_rel(before, *app, mouse, *ctx, now, false, KeyAction::Nothing));
            }
            KeyAction::Nothing
        },
        MouseKind::LeftDown => {
            let double = match (app.last_click, since_last_click) {
                (Some(_), Some(ms)) => ms < DOUBLE_CLICK_MS,
                _ => false,
            };
            app.last_click = Some(now);
            if double {
                let a = copy_focused(app, ctx);
                proof {
                    assert(mouse_rel(before, *app, mouse, *ctx, now, true, a));
                }
                a
            } else {
                if mouse.row < 3 {
                    match clicked_tab(mouse.column) {
                        Some(t) => {
                            app.active_tab = t;
                        },
                        None => {},
                    }
                }
                proof {
                    assert(mouse_rel(before, *app, mouse, *ctx, now, false, KeyAction::Nothing));
                }
                KeyAction::Nothing
            }
        },
        MouseKind::Other => {
            proof {
                assert(mouse_rel(before, *app, mouse, *ctx, now, false, KeyAction::Nothing));
            }
            KeyAction::Nothing
        },
    };
    (false, action)
}

/// Mouse events, as [`handle_mouse_after`] handles them, with the time since
/// the last click read from the clock: whether a click counts as a double
/// click is the clock's to say.
pub fn handle_mouse(app: &mut App, mouse: MouseEvent, ctx: &KeyContext, now: Instant) -> (r: (bool, KeyAction))
    requires
        !old(app).show_help && mouse.kind == MouseKind::ScrollDown && old(app).active_tab == Tab::Mining
            ==> spec_selected(old(app).mining_tab) + 3 <= usize::MAX,
    ensures
        old(app).show_help ==> r.0 && r.1 is Nothing && *final(app) == if mouse.kind == MouseKind::LeftDown {
            App { show_help: false, ..*old(app) }
        } else {
            *old(app)
        },
        !old(app).show_help ==> !r.0 && exists|double: bool|
            #![trigger mouse_rel(*old(app), *final(app), mouse, *ctx, now, double, r.1)]
            mouse_rel(*old(app), *final(app), mouse, *ctx, now, double, r.1)
                && (old(app).last_click is None ==> !double),
{
    let since = match app.last_click {
        Some(prev) => Some(millis_between(prev, now)),
        None => None,
    };
    let r = handle_mouse_after(app, mouse, ctx, now, since);
    proof {
        let d = is_double_click(old(app).last_click, since);
        if !old(app).show_help {
            assert(mouse_rel(*old(app), *app, mouse, *ctx, now, d, r.1));
        }
    }
    r
}

/// Whether `t` begins with the characters `w`, `s`, `:`, `/`, `/` or with
/// `w`, `s`, `s`, `:`, `/`, `/`.
pub open spec fn begins_ws_or_wss(t: Seq<char>) -> bool {
    ||| (t.len() >= 5 && t[0] == 'w' && t[1] == 's' && t[2] == ':' && t[3] == '/' && t[4] == '/')
    ||| (t.len() >= 6 && t[0] == 'w' && t[1] == 's' && t[2] == 's' && t[3] == ':' && t[4] == '/'
        && t[5] == '/')
}

/// An edited node address is taken exactly when, trimmed, it is empty or
/// begins with `ws://` or `wss://`; a taken non-empty address is stored
/// trimmed, an empty one clears the address.
pub proof fn law_url_edit_accepts_websocket_urls(
    before: SettingsState,
    after: SettingsState,
    val: Seq<char>,
    r: bool,
)
    requires
        edit_applied(before, after, SettingsField::Url, val, r),
    ensures
        r <==> (trim_spec(val).len() == 0 || begins_ws_or_wss(trim_spec(val))),
        r && trim_spec(val).len() > 0 ==> (after.config.url matches Some(u) && u@ == trim_spec(val)),
        r && trim_spec(val).len() == 0 ==> after.config.url is None,
        !r ==> after.config == before.config,
{
    let t = trim_spec(val);
    reveal_strlit("ws://");
    reveal_strlit("wss://");
    if t.len() >= 5 && t[0] == 'w' && t[1] == 's' && t[2] == ':' && t[3] == '/' && t[4] == '/' {
        assert(t.take(5) =~= "ws://"@);
    }
    if t.len() >= 6 && t[0] == 'w' && t[1] == 's' && t[2] == 's' && t[3] == ':' && t[4] == '/'
        && t[5] == '/' {
        assert(t.take(6) =~= "wss://"@);
    }
    if starts_with(t, "ws://"@) {
        assert(t.take(5)[0] == 'w');
        assert(t.take(5)[1] == 's');
        assert(t.take(5)[2] == ':');
        assert(t.take(5)[3] == '/');
        assert(t.take(5)[4] == '/');
    }
    if starts_with(t, "wss://"@) {
        assert(t.take(6)[0] == 'w');
        assert(t.take(6)[2] == 's');
        assert(t.take(6)[5] == '/');
        assert(t.take(6)[3] == ':');
        assert(t.take(6)[4] == '/');
        assert(t.take(6)[1] == 's');
    }
}

} // verus!
