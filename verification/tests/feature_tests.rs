use std::collections::VecDeque;

use tui4kas::app_state::{SettingsState, Tab};
use tui4kas::cli::{CliArgs, GlobalArgs, LogLevel};
use tui4kas::command_line::CommandLine;
use tui4kas::commands::{
    classify_command, help_text, run_builtin_command, unknown_command_message, CommandKind,
};
use tui4kas::config::AppConfig;
use tui4kas::daemon::{
    app_dir_in,
    bool_str, build_kaspad_args, estimate_field_line, network_dir_name, opt_str, opt_usize,
    parse_network, rocksdb_preset_arg, wrpc_borsh_url, DaemonConfig, LogTarget,
};
use tui4kas::keys::{
    apply_field_edit, copy_to_clipboard, explorer_response, get_field_value, osc52_frame,
    parse_u64, record_reload_outcome, record_save_outcome, SettingsField,
};
use tui4kas::node_log::{append_log_lines, split_lines, tail_read_start};
use tui4kas::rpc_types::{MempoolEntryInfo, MempoolState};
use tui4kas::screen::App;
use tui4kas::tui_cli;

#[test]
fn copy_to_clipboard_frames_base64() {
    assert_eq!(copy_to_clipboard("hello"), "\x1b]52;c;aGVsbG8=\x07");
    assert_eq!(copy_to_clipboard(""), "\x1b]52;c;\x07");
    assert_eq!(copy_to_clipboard("🦀"), "\x1b]52;c;8J+mgA==\x07");
    assert_eq!(osc52_frame("QUJD"), "\x1b]52;c;QUJD\x07");
}

#[test]
fn split_lines_follows_str_lines() {
    for text in ["", "a", "a\n", "a\r\nb", "a\n\nb\n", "x\r", "\r\n", "one\ntwo\r\nthree"] {
        let expected: Vec<String> = text.lines().map(|l| l.to_string()).collect();
        assert_eq!(split_lines(text), expected, "text {:?}", text);
    }
}

#[test]
fn append_log_lines_skips_blank_lines() {
    let mut log: VecDeque<String> = VecDeque::from(vec!["old".to_string()]);
    append_log_lines(&mut log, "first\n   \n\r\nsecond\r\n");
    assert_eq!(log, VecDeque::from(vec!["old".to_string(), "first".to_string(), "second".to_string()]));
}

#[test]
fn tail_read_start_windows_the_first_read() {
    assert_eq!(tail_read_start(true, 0, 100_000), (100_000 - 65_536, true));
    assert_eq!(tail_read_start(true, 0, 1000), (0, true));
    assert_eq!(tail_read_start(true, 0, 0), (0, false));
    assert_eq!(tail_read_start(false, 500, 800), (500, true));
    assert_eq!(tail_read_start(false, 800, 800), (800, false));
}

#[test]
fn build_kaspad_args_from_config() {
    let mut config = DaemonConfig::default();
    config.network = "testnet-11".to_string();
    config.connect_peers = " 1.2.3.4:16111 , ,5.6.7.8:16111".to_string();
    config.rocksdb_preset = "hdd".to_string();
    config.listen = Some("0.0.0.0:16111".to_string());
    config.app_dir = "/tmp/node".to_string();
    let args = build_kaspad_args(&config);
    assert!(args.testnet);
    assert_eq!(args.testnet_suffix, 11);
    assert!(!args.devnet && !args.simnet);
    assert_eq!(args.connect_peers, vec!["1.2.3.4:16111", "5.6.7.8:16111"]);
    assert!(args.add_peers.is_empty());
    assert_eq!(args.rocksdb_preset, Some("hdd".to_string()));
    assert_eq!(args.listen, Some("0.0.0.0:16111".to_string()));
    assert_eq!(args.appdir, "/tmp/node");
    assert!(args.rpclisten_borsh_default && args.disable_grpc && !args.rpclisten_json);
    assert!(args.yes && !args.no_log_files);
    assert_eq!(args.log_level, "WARN");

    let mut plain = DaemonConfig::default();
    plain.network = "mainnet".to_string();
    let args = build_kaspad_args(&plain);
    assert!(!args.testnet);
    assert_eq!(args.rocksdb_preset, None);
}

#[test]
fn node_network_helpers() {
    assert_eq!(parse_network("testnet-10"), (true, 10, false, false));
    assert_eq!(parse_network("mainnet"), (false, 10, false, false));
    assert_eq!(parse_network("devnet"), (false, 10, false, false));
    assert_eq!(wrpc_borsh_url("mainnet"), "ws://127.0.0.1:17110");
    assert_eq!(wrpc_borsh_url("testnet-11"), "ws://127.0.0.1:17210");
    assert_eq!(network_dir_name("testnet-10"), "kaspa-testnet-10");
    assert_eq!(network_dir_name("other"), "kaspa-mainnet");
    assert_eq!(rocksdb_preset_arg(""), None);
    assert_eq!(rocksdb_preset_arg("default"), None);
    assert_eq!(rocksdb_preset_arg("hdd"), Some("hdd".to_string()));
}

#[test]
fn node_settings_display_helpers() {
    assert_eq!(opt_str(&Some("x".to_string())), "x");
    assert_eq!(opt_str(&None), "—");
    assert_eq!(opt_usize(&Some(512)), "512");
    assert_eq!(opt_usize(&None), "—");
    assert_eq!(bool_str(true), "Yes");
    assert_eq!(bool_str(false), "No");
    assert_eq!(estimate_field_line(0), 1);
    assert_eq!(estimate_field_line(7), 10);
    assert_eq!(estimate_field_line(15), 20);
    assert_eq!(estimate_field_line(22), 29);
    assert_eq!(estimate_field_line(23), 32);
    assert_eq!(estimate_field_line(99), 0);
    assert_eq!(LogTarget::Tui.as_str(), "tui");
    assert_eq!(LogTarget::Cli.as_str(), "cli");
    assert!(!LogTarget::Tui.stdout_enabled());
    assert!(LogTarget::Cli.stdout_enabled());
}

#[test]
fn cli_option_overrides() {
    let d = CliArgs::default();
    assert_eq!(d.url, None);
    assert_eq!(d.network, "mainnet");
    assert_eq!(d.refresh_interval_ms, 1000);
    assert_eq!(LogLevel::default(), LogLevel::Info);
    let g = GlobalArgs {
        log_level: LogLevel::Debug,
        url: Some("ws://h:1".to_string()),
        network: None,
        refresh_interval_ms: Some(250),
        analyze_from_pruning_point: Some(false),
    };
    let o = g.into_overrides();
    assert_eq!(o.url, Some("ws://h:1".to_string()));
    assert_eq!(o.network, None);
    assert_eq!(o.refresh_interval_ms, Some(250));
    assert_eq!(o.analyze_from_pruning_point, Some(false));
    let t = tui_cli::CliArgs {
        log_level: LogLevel::Info,
        url: None,
        network: Some("testnet-10".to_string()),
        refresh_interval_ms: None,
        analyze_from_pruning_point: None,
    };
    let mut config = AppConfig::default();
    config.apply_overrides(t.into_overrides());
    assert_eq!(config.network, "testnet-10");
    assert_eq!(config.url, None);
}

#[test]
fn classify_and_run_builtin_commands() {
    assert!(matches!(classify_command("  help  "), CommandKind::Help));
    assert!(matches!(classify_command("clear now"), CommandKind::Clear));
    match classify_command(" get_info extra words") {
        CommandKind::Rpc(w) => assert_eq!(w, "get_info"),
        _ => panic!("expected an RPC word"),
    }
    let mut cl = CommandLine::default();
    assert_eq!(run_builtin_command(&mut cl, "help"), None);
    assert_eq!(cl.output.len(), 1);
    assert_eq!(cl.output[0].command, "help");
    assert_eq!(cl.output[0].result, help_text());
    assert!(!cl.output[0].is_error);
    assert!(cl.show_output);
    assert_eq!(run_builtin_command(&mut cl, "ping"), Some("ping".to_string()));
    assert_eq!(cl.output.len(), 1);
    assert_eq!(run_builtin_command(&mut cl, "clear"), None);
    assert!(cl.output.is_empty());
    assert!(!cl.show_output);
    assert_eq!(
        unknown_command_message("foo"),
        "Unknown command: 'foo'. Type 'help' for available commands."
    );
}

#[test]
fn help_text_lists_every_command() {
    let text = help_text();
    assert!(text.starts_with("Available commands:\n\n"));
    assert!(text.ends_with("\nPress ':' to open command line, Esc to close, Up/Down for history"));
    for (name, desc) in CommandLine::available_commands() {
        let line = format!("  {:<28} {}\n", name, desc);
        assert!(text.contains(&line), "missing {:?}", line);
    }
}

#[test]
fn context_hint_follows_the_screen() {
    let mut app = App::new(AppConfig::default());
    assert_eq!(app.context_hint(), "Tab/1-6 switch | p pause | ? help");
    app.active_tab = Tab::Mempool;
    assert_eq!(app.context_hint(), "j/k select | Enter detail | g/G top/bottom | ? help");
    app.mempool_detail = Some("tx".to_string());
    assert_eq!(app.context_hint(), "Esc close popup | ? help");
    app.quit_confirm = true;
    assert_eq!(app.context_hint(), "Press q again to quit, any other key to cancel");
    app.quit_confirm = false;
    app.mempool_detail = None;
    app.active_tab = Tab::Settings;
    assert_eq!(app.context_hint(), "Up/Down nav | Enter edit/cycle | r reload | ? help");
    app.settings.editing = true;
    assert_eq!(app.context_hint(), "Enter save | Esc cancel");
}

#[test]
fn settings_field_display_and_edits() {
    let mut state = SettingsState::new(AppConfig::default());
    assert_eq!(state.field_display(0, "v"), (" > ", "v".to_string()));
    assert_eq!(state.field_display(1, "v"), ("   ", "v".to_string()));
    state.editing = true;
    state.edit_buffer = "ws://x".to_string();
    assert_eq!(state.field_display(0, "v"), (" > ", "ws://x_".to_string()));

    assert!(apply_field_edit(&mut state, SettingsField::Url, "  wss://node:1 "));
    assert_eq!(state.config.url, Some("wss://node:1".to_string()));
    assert!(!apply_field_edit(&mut state, SettingsField::Url, "http://node"));
    assert_eq!(
        state.status_message,
        Some(("URL must start with ws:// or wss://".to_string(), true))
    );
    assert!(apply_field_edit(&mut state, SettingsField::Url, "   "));
    assert_eq!(state.config.url, None);
    assert!(apply_field_edit(&mut state, SettingsField::RefreshInterval, "250"));
    assert_eq!(state.config.refresh_interval_ms, 250);
    assert!(!apply_field_edit(&mut state, SettingsField::RefreshInterval, "99"));
    assert!(!apply_field_edit(&mut state, SettingsField::RefreshInterval, "abc"));
    assert_eq!(state.status_message, Some(("Interval must be >= 100ms".to_string(), true)));
    assert_eq!(state.config.refresh_interval_ms, 250);
    assert!(!apply_field_edit(&mut state, SettingsField::Network, "testnet-10"));

    assert_eq!(get_field_value(&state.config, SettingsField::RefreshInterval), "250");
    assert_eq!(get_field_value(&state.config, SettingsField::Url), "");
    assert_eq!(get_field_value(&state.config, SettingsField::Network), "mainnet");
    assert_eq!(get_field_value(&state.config, SettingsField::AnalysisStart), "Pruning Point");
    assert_eq!(SettingsField::from_index(1), Some(SettingsField::Network));
    assert_eq!(SettingsField::from_index(4), None);
}

#[test]
fn record_save_outcome_messages() {
    let mut state = SettingsState::new(AppConfig::default());
    record_save_outcome(&mut state, Err("disk full".to_string()), true);
    assert_eq!(state.status_message, Some(("Save failed: disk full".to_string(), true)));
    record_save_outcome(&mut state, Ok(()), true);
    assert_eq!(state.status_message, Some(("Saved & reconnecting...".to_string(), false)));
    record_save_outcome(&mut state, Ok(()), false);
    assert_eq!(state.status_message, Some(("Saved (reconnect pending)".to_string(), false)));
}

#[test]
fn parse_u64_accepts_plain_decimals() {
    assert_eq!(parse_u64("0"), Some(0));
    assert_eq!(parse_u64("+42"), Some(42));
    assert_eq!(parse_u64("18446744073709551615"), Some(u64::MAX));
    assert_eq!(parse_u64("18446744073709551616"), None);
    assert_eq!(parse_u64(""), None);
    assert_eq!(parse_u64("+"), None);
    assert_eq!(parse_u64("-1"), None);
    assert_eq!(parse_u64("1 2"), None);
    for s in ["7", "100", "007", "+9"] {
        assert_eq!(parse_u64(s), s.parse::<u64>().ok());
    }
}

#[test]
fn mempool_entries_and_fee_total() {
    let e1 = MempoolEntryInfo::from_parts(None, 42, 500, false);
    assert_eq!(e1.transaction_id, "mass:42");
    assert_eq!(e1.fee, 500);
    let e2 = MempoolEntryInfo::from_parts(Some("abab".to_string()), 1, 250, true);
    assert_eq!(e2.transaction_id, "abab");
    assert!(e2.is_orphan);
    let state = MempoolState::from_entries(vec![e1, e2]);
    assert_eq!(state.entry_count, 2);
    assert_eq!(state.total_fees, 750);
    let empty = MempoolState::from_entries(Vec::new());
    assert_eq!(empty.entry_count, 0);
    assert_eq!(empty.total_fees, 0);
}

#[test]
fn reload_outcome_and_explorer_response() {
    let mut state = SettingsState::new(AppConfig::default());
    let mut loaded = AppConfig::default();
    loaded.network = "testnet-11".to_string();
    record_reload_outcome(&mut state, Ok(loaded));
    assert_eq!(state.config.network, "testnet-11");
    assert_eq!(state.status_message, Some(("Config reloaded".to_string(), false)));
    record_reload_outcome(&mut state, Err("no file".to_string()));
    assert_eq!(state.config.network, "testnet-11");
    assert_eq!(state.status_message, Some(("Load failed: no file".to_string(), true)));
    assert_eq!(explorer_response(Ok("pong".to_string())), "pong");
    assert_eq!(explorer_response(Err("timeout".to_string())), "Error: timeout");
}

#[test]
fn default_app_dir_is_under_home() {
    let config = DaemonConfig::default();
    assert!(config.app_dir.ends_with(".tui4kas"));
    if let Some(home) = dirs::home_dir() {
        let home = home.to_string_lossy().into_owned();
        assert!(config.app_dir.starts_with(&home));
        assert!(config.app_dir.len() > home.len());
    }
}

#[test]
fn app_dir_in_and_config_with() {
    assert_eq!(app_dir_in(None), ".tui4kas");
    let d = app_dir_in(Some("/home/kas".to_string()));
    assert!(d.starts_with("/home/kas"));
    assert!(d.ends_with(".tui4kas"));
    assert!(d.len() > "/home/kas".len() + ".tui4kas".len() - 1);
    let c = DaemonConfig::with(7, "/data/node".to_string());
    assert_eq!(c.async_threads, 7);
    assert_eq!(c.app_dir, "/data/node");
    assert_eq!(c.network, "mainnet");
    assert_eq!(c.log_level, "WARN");
    assert_eq!(c.rpc_max_clients, 128);
}

#[test]
fn mempool_state_fee_summation() {
    let entries = vec![
        MempoolEntryInfo::from_parts(None, 42, 100, false),
        MempoolEntryInfo::from_parts(None, 42, 250, false),
        MempoolEntryInfo::from_parts(None, 42, 50, true),
    ];
    let state = MempoolState::from_entries(entries);
    assert_eq!(state.entry_count, 3);
    assert_eq!(state.total_fees, 400);
}
