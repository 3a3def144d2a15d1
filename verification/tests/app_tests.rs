use std::collections::VecDeque;

use tui4kas::app_state::{DagStats, RpcExplorerState, Tab};
use tui4kas::command_line::CommandLine;
use tui4kas::config::AppConfig;
use tui4kas::help::help_entries;
use tui4kas::screen::App;

#[test]
fn tab_titles() {
    assert_eq!(Tab::Dashboard.title(), "1:Dashboard");
    assert_eq!(Tab::Mining.title(), "2:Mining");
    assert_eq!(Tab::Mempool.title(), "3:Mempool");
    assert_eq!(Tab::Analytics.title(), "4:Analytics");
    assert_eq!(Tab::RpcExplorer.title(), "5:RPC Cmds");
    assert_eq!(Tab::Settings.title(), "6:Settings");
}

#[test]
fn tab_index_matches_all_order() {
    let mut app = App::new(AppConfig::default());
    for (i, tab) in Tab::all().iter().enumerate() {
        app.active_tab = *tab;
        assert_eq!(app.tab_index(), i);
    }
}

#[test]
fn next_tab_cycles_forward() {
    let mut app = App::new(AppConfig::default());
    assert_eq!(app.active_tab, Tab::Dashboard);
    app.next_tab();
    assert_eq!(app.active_tab, Tab::Mining);
    app.next_tab();
    assert_eq!(app.active_tab, Tab::Mempool);
    app.next_tab();
    assert_eq!(app.active_tab, Tab::Analytics);
    app.next_tab();
    assert_eq!(app.active_tab, Tab::RpcExplorer);
    app.next_tab();
    let last = *Tab::all().last().unwrap();
    if last == Tab::RpcExplorer {
        assert_eq!(app.active_tab, Tab::Dashboard);
    } else {
        assert_eq!(app.active_tab, last);
        app.next_tab();
        assert_eq!(app.active_tab, Tab::Dashboard);
    }
}

#[test]
fn prev_tab_cycles_backward() {
    let mut app = App::new(AppConfig::default());
    app.prev_tab();
    let last = *Tab::all().last().unwrap();
    assert_eq!(app.active_tab, last);
    app.active_tab = Tab::Analytics;
    app.prev_tab();
    assert_eq!(app.active_tab, Tab::Mempool);
}

#[test]
fn insert_char_ascii() {
    let mut cl = CommandLine::default();
    cl.insert_char('a');
    cl.insert_char('b');
    assert_eq!(cl.input, "ab");
    assert_eq!(cl.cursor_pos, 2);
}

#[test]
fn insert_char_utf8_emoji() {
    let mut cl = CommandLine::default();
    cl.insert_char('🦀');
    assert_eq!(cl.input, "🦀");
    assert_eq!(cl.cursor_pos, 4);
    cl.insert_char('!');
    assert_eq!(cl.input, "🦀!");
}

#[test]
fn insert_char_mid_string() {
    let mut cl = CommandLine::default();
    cl.input = "ac".to_string();
    cl.cursor_pos = 1;
    cl.insert_char('b');
    assert_eq!(cl.input, "abc");
    assert_eq!(cl.cursor_pos, 2);
}

#[test]
fn delete_char_at_cursor() {
    let mut cl = CommandLine::default();
    cl.input = "abc".to_string();
    cl.cursor_pos = 1;
    cl.delete_char();
    assert_eq!(cl.input, "ac");
    assert_eq!(cl.cursor_pos, 1);
}

#[test]
fn delete_char_at_end_noop() {
    let mut cl = CommandLine::default();
    cl.input = "abc".to_string();
    cl.cursor_pos = 3;
    cl.delete_char();
    assert_eq!(cl.input, "abc");
}

#[test]
fn delete_char_empty_noop() {
    let mut cl = CommandLine::default();
    cl.delete_char();
    assert_eq!(cl.input, "");
}

#[test]
fn backspace_removes_previous() {
    let mut cl = CommandLine::default();
    cl.input = "abc".to_string();
    cl.cursor_pos = 2;
    cl.backspace();
    assert_eq!(cl.input, "ac");
    assert_eq!(cl.cursor_pos, 1);
}

#[test]
fn backspace_at_start_noop() {
    let mut cl = CommandLine::default();
    cl.input = "abc".to_string();
    cl.cursor_pos = 0;
    cl.backspace();
    assert_eq!(cl.input, "abc");
    assert_eq!(cl.cursor_pos, 0);
}

#[test]
fn backspace_utf8() {
    let mut cl = CommandLine::default();
    cl.input = "a🦀b".to_string();
    cl.cursor_pos = 5;
    cl.backspace();
    assert_eq!(cl.input, "ab");
    assert_eq!(cl.cursor_pos, 1);
}

#[test]
fn move_left_right() {
    let mut cl = CommandLine::default();
    cl.input = "abc".to_string();
    cl.cursor_pos = 2;
    cl.move_left();
    assert_eq!(cl.cursor_pos, 1);
    cl.move_right();
    assert_eq!(cl.cursor_pos, 2);
}

#[test]
fn move_left_at_start_noop() {
    let mut cl = CommandLine::default();
    cl.input = "abc".to_string();
    cl.cursor_pos = 0;
    cl.move_left();
    assert_eq!(cl.cursor_pos, 0);
}

#[test]
fn move_right_at_end_noop() {
    let mut cl = CommandLine::default();
    cl.input = "abc".to_string();
    cl.cursor_pos = 3;
    cl.move_right();
    assert_eq!(cl.cursor_pos, 3);
}

#[test]
fn move_left_right_utf8() {
    let mut cl = CommandLine::default();
    cl.input = "a🦀b".to_string();
    cl.cursor_pos = 5;
    cl.move_left();
    assert_eq!(cl.cursor_pos, 1);
    cl.move_right();
    assert_eq!(cl.cursor_pos, 5);
}

#[test]
fn move_home_end() {
    let mut cl = CommandLine::default();
    cl.input = "hello".to_string();
    cl.cursor_pos = 3;
    cl.move_home();
    assert_eq!(cl.cursor_pos, 0);
    cl.move_end();
    assert_eq!(cl.cursor_pos, 5);
}

#[test]
fn history_up_empty() {
    let mut cl = CommandLine::default();
    cl.history_up();
    assert_eq!(cl.history_index, None);
    assert_eq!(cl.input, "");
}

#[test]
fn history_up_navigates() {
    let mut cl = CommandLine::default();
    cl.history = VecDeque::from(vec!["first".to_string(), "second".to_string()]);
    cl.history_up();
    assert_eq!(cl.input, "second");
    assert_eq!(cl.history_index, Some(1));
    cl.history_up();
    assert_eq!(cl.input, "first");
    assert_eq!(cl.history_index, Some(0));
    cl.history_up();
    assert_eq!(cl.input, "first");
    assert_eq!(cl.history_index, Some(0));
}

#[test]
fn history_down_restores_empty() {
    let mut cl = CommandLine::default();
    cl.history = VecDeque::from(vec!["cmd".to_string()]);
    cl.history_up();
    assert_eq!(cl.input, "cmd");
    cl.history_down();
    assert_eq!(cl.input, "");
    assert_eq!(cl.history_index, None);
}

#[test]
fn history_down_without_history_noop() {
    let mut cl = CommandLine::default();
    cl.input = "typing".to_string();
    cl.history_down();
    assert_eq!(cl.input, "typing");
}

#[test]
fn submit_empty_returns_none() {
    let mut cl = CommandLine::default();
    cl.input = "   ".to_string();
    assert!(cl.submit().is_none());
}

#[test]
fn submit_returns_trimmed_command() {
    let mut cl = CommandLine::default();
    cl.input = "  ping  ".to_string();
    let cmd = cl.submit();
    assert_eq!(cmd, Some("ping".to_string()));
    assert_eq!(cl.input, "");
    assert_eq!(cl.cursor_pos, 0);
    assert_eq!(cl.history_index, None);
}

#[test]
fn submit_appends_to_history() {
    let mut cl = CommandLine::default();
    cl.input = "get_server_info".to_string();
    cl.submit();
    assert_eq!(cl.history, VecDeque::from(vec!["get_server_info".to_string()]));
}

#[test]
fn submit_caps_history_at_100() {
    let mut cl = CommandLine::default();
    for i in 0..105 {
        cl.input = format!("cmd{}", i);
        cl.submit();
    }
    assert_eq!(cl.history.len(), 100);
    assert_eq!(cl.history.front().unwrap(), "cmd5");
    assert_eq!(cl.history.back().unwrap(), "cmd104");
}

#[test]
fn push_output_caps_at_50() {
    let mut cl = CommandLine::default();
    for i in 0..55 {
        cl.push_output(format!("cmd{}", i), "ok".to_string(), false);
    }
    assert_eq!(cl.output.len(), 50);
    assert_eq!(cl.output.front().unwrap().command, "cmd5");
}

#[test]
fn push_output_resets_scroll() {
    let mut cl = CommandLine::default();
    cl.output_scroll = 10;
    cl.push_output("test".to_string(), "result".to_string(), false);
    assert_eq!(cl.output_scroll, 0);
    assert!(cl.show_output);
}

#[test]
fn push_output_tracks_errors() {
    let mut cl = CommandLine::default();
    cl.push_output("bad".to_string(), "fail".to_string(), true);
    assert!(cl.output.front().unwrap().is_error);
}

#[test]
fn activate_clears_state() {
    let mut cl = CommandLine::default();
    cl.input = "leftover".to_string();
    cl.cursor_pos = 5;
    cl.history_index = Some(2);
    cl.activate();
    assert!(cl.active);
    assert_eq!(cl.input, "");
    assert_eq!(cl.cursor_pos, 0);
    assert_eq!(cl.history_index, None);
}

#[test]
fn deactivate_clears_state() {
    let mut cl = CommandLine::default();
    cl.active = true;
    cl.input = "something".to_string();
    cl.deactivate();
    assert!(!cl.active);
    assert_eq!(cl.input, "");
    assert_eq!(cl.cursor_pos, 0);
}

#[test]
fn rpc_explorer_default_has_all_methods() {
    let state = RpcExplorerState::default();
    assert!(state.available_methods.len() >= 18);
    assert!(state.available_methods.contains(&"ping"));
    assert!(state.available_methods.contains(&"get_server_info"));
    assert!(state.available_methods.contains(&"get_sink"));
    assert!(state.available_methods.contains(&"get_sink_blue_score"));
    assert!(state.available_methods.contains(&"get_info"));
    assert!(state.available_methods.contains(&"get_peer_addresses"));
    assert!(state.available_methods.contains(&"get_current_network"));
    assert!(state.available_methods.contains(&"get_fee_estimate_experimental"));
    assert!(state.available_methods.contains(&"estimate_network_hashes_per_second"));
}

#[test]
fn dag_stats_update_adds_sample() {
    let mut stats = DagStats::default();
    stats.update(Some(500));
    assert_eq!(stats.samples.len(), 1);
    assert_eq!(stats.sink_blue_score, Some(500));
}

#[test]
fn dag_stats_caps_at_120() {
    let mut stats = DagStats::default();
    for _ in 0..130 {
        stats.update(Some(500));
    }
    assert_eq!(stats.samples.len(), 120);
}

#[test]
fn rpc_explorer_methods_match_available_commands() {
    let state = RpcExplorerState::default();
    let commands = CommandLine::available_commands();
    for method in &state.available_methods {
        assert!(
            commands.iter().any(|(name, _)| name == method),
            "Explorer method '{}' missing from available_commands",
            method
        );
    }
}

#[test]
fn dag_stats_default_empty() {
    let stats = DagStats::default();
    assert!(stats.samples.is_empty());
    assert!(stats.sink_blue_score.is_none());
}

#[test]
fn help_lists_global_current_tab_and_command_line() {
    let entries = help_entries(Tab::Mining, false);
    assert_eq!(entries[0], ("", "Global"));
    assert_eq!(entries[1], ("1-6", "Switch to tab"));
    assert_eq!(entries[9], ("Esc", "Close overlay/popup"));
    assert_eq!(entries[10], ("", ""));
    assert_eq!(entries[11], ("", "Mining (current tab)"));
    assert_eq!(entries[15], ("o", "Open address in browser"));
    assert_eq!(entries[16], ("", ""));
    assert_eq!(entries[17], ("", "Command Line"));
    assert_eq!(entries.last(), Some(&("Home/End", "Start/end of line")));
    assert_eq!(entries.len(), 23);
}

#[test]
fn help_settings_editing_variant() {
    let editing = help_entries(Tab::Settings, true);
    assert_eq!(editing[11], ("", "Settings (Editing) (current tab)"));
    assert_eq!(editing[12], ("Enter", "Save value"));
    assert_eq!(editing[14], ("Backspace", "Delete character"));
    let browsing = help_entries(Tab::Settings, false);
    assert_eq!(browsing[11], ("", "Settings (current tab)"));
    assert_eq!(browsing[15], ("r", "Reload config"));
    assert_eq!(help_entries(Tab::Dashboard, true), help_entries(Tab::Dashboard, false));
    assert_eq!(help_entries(Tab::RpcExplorer, false)[17], ("g/G or Home/End", "Jump to top/bottom"));
}

#[test]
fn tick_clears_copy_note() {
    let mut app = App::new(AppConfig::default());
    app.dirty = false;
    app.on_tick();
    assert!(!app.dirty);
    app.clipboard_flash = Some("Copied: x".to_string());
    app.on_tick();
    assert_eq!(app.clipboard_flash, None);
    assert!(app.dirty);
}

#[test]
fn reconnect_drops_sync_progress_only() {
    let mut app = App::new(AppConfig::default());
    app.analytics.sync_progress = Some(tui4kas::app_state::AnalyticsSyncProgress {
        start_daa: 1,
        last_daa: 2,
        tip_daa: 3,
        from_pruning_point: true,
    });
    app.analytics.reorg_notification = Some("n".to_string());
    app.clear_for_reconnect();
    assert!(app.analytics.sync_progress.is_none());
    assert_eq!(app.analytics.reorg_notification, Some("n".to_string()));
}
