use std::time::{Duration, Instant};

use tui4kas::app_state::Tab;
use tui4kas::config::AppConfig;
use tui4kas::keys::{
    handle_command_mode_keys, handle_mouse, handle_mouse_after, handle_normal_keys, KeyAction, KeyCode, KeyContext,
    KeyEvent, MouseEvent, MouseKind,
};
use tui4kas::screen::App;

fn key(code: KeyCode) -> KeyEvent {
    KeyEvent { code, ctrl: false }
}

fn ctx() -> KeyContext {
    KeyContext {
        mempool_ids: vec!["tx0".to_string(), "tx1".to_string(), "tx2".to_string()],
        miners: vec!["kaspa:m1".to_string(), "kaspa:m2".to_string()],
        pools: vec!["PoolA".to_string()],
        versions: vec!["0.14.1".to_string()],
    }
}

#[test]
fn q_twice_quits_and_other_keys_cancel() {
    let mut app = App::new(AppConfig::default());
    let c = ctx();
    handle_normal_keys(&mut app, key(KeyCode::Char('q')), &c);
    assert!(app.quit_confirm);
    assert!(!app.should_quit);
    handle_normal_keys(&mut app, key(KeyCode::Char('x')), &c);
    assert!(!app.quit_confirm);
    handle_normal_keys(&mut app, key(KeyCode::Char('q')), &c);
    handle_normal_keys(&mut app, key(KeyCode::Char('q')), &c);
    assert!(app.should_quit);
}

#[test]
fn ctrl_c_quits_at_once() {
    let mut app = App::new(AppConfig::default());
    handle_normal_keys(&mut app, KeyEvent { code: KeyCode::Char('c'), ctrl: true }, &ctx());
    assert!(app.should_quit);
}

#[test]
fn global_keys_switch_and_toggle() {
    let mut app = App::new(AppConfig::default());
    let c = ctx();
    handle_normal_keys(&mut app, key(KeyCode::Tab), &c);
    assert_eq!(app.active_tab, Tab::Mining);
    handle_normal_keys(&mut app, key(KeyCode::BackTab), &c);
    assert_eq!(app.active_tab, Tab::Dashboard);
    handle_normal_keys(&mut app, key(KeyCode::Char('3')), &c);
    assert_eq!(app.active_tab, Tab::Mempool);
    handle_normal_keys(&mut app, key(KeyCode::Char('6')), &c);
    assert_eq!(app.active_tab, Tab::Settings);
    handle_normal_keys(&mut app, key(KeyCode::Char('p')), &c);
    assert!(app.paused);
    handle_normal_keys(&mut app, key(KeyCode::Char('p')), &c);
    assert!(!app.paused);
    handle_normal_keys(&mut app, key(KeyCode::Char(':')), &c);
    assert!(app.command_line.active);
}

#[test]
fn help_overlay_takes_keys_until_closed() {
    let mut app = App::new(AppConfig::default());
    let c = ctx();
    handle_normal_keys(&mut app, key(KeyCode::Char('?')), &c);
    assert!(app.show_help);
    let (taken, _) = handle_normal_keys(&mut app, key(KeyCode::Tab), &c);
    assert!(taken);
    assert_eq!(app.active_tab, Tab::Dashboard);
    handle_normal_keys(&mut app, key(KeyCode::Esc), &c);
    assert!(!app.show_help);
}

#[test]
fn copy_key_copies_the_selected_method() {
    let mut app = App::new(AppConfig::default());
    app.active_tab = Tab::RpcExplorer;
    let (_, action) = handle_normal_keys(&mut app, key(KeyCode::Char('c')), &ctx());
    match action {
        KeyAction::Copy(text) => assert_eq!(text, "get_server_info"),
        _ => panic!("expected a copy"),
    }
    assert_eq!(app.clipboard_flash, Some("Copied: get_server_info".to_string()));
}

#[test]
fn mempool_keys_select_and_open() {
    let mut app = App::new(AppConfig::default());
    let c = ctx();
    app.active_tab = Tab::Mempool;
    handle_normal_keys(&mut app, key(KeyCode::Char('j')), &c);
    handle_normal_keys(&mut app, key(KeyCode::Char('j')), &c);
    handle_normal_keys(&mut app, key(KeyCode::Char('j')), &c);
    assert_eq!(app.mempool_selected, 2);
    handle_normal_keys(&mut app, key(KeyCode::Char('k')), &c);
    assert_eq!(app.mempool_selected, 1);
}

#[test]
fn command_mode_submits_a_command() {
    let mut app = App::new(AppConfig::default());
    app.command_line.activate();
    for ch in " ping".chars() {
        assert_eq!(handle_command_mode_keys(&mut app, KeyCode::Char(ch)), None);
    }
    let submitted = handle_command_mode_keys(&mut app, KeyCode::Enter);
    assert_eq!(submitted, Some("ping".to_string()));
    assert_eq!(app.command_line.input, "");
    handle_command_mode_keys(&mut app, KeyCode::Esc);
    assert!(!app.command_line.active);
}

#[test]
fn clicking_the_tab_bar_selects_a_tab() {
    let mut app = App::new(AppConfig::default());
    let c = ctx();
    let now = Instant::now();
    handle_mouse(&mut app, MouseEvent { kind: MouseKind::LeftDown, column: 17, row: 1 }, &c, now);
    assert_eq!(app.active_tab, Tab::Mining);
    let later = now + Duration::from_secs(5);
    handle_mouse(&mut app, MouseEvent { kind: MouseKind::LeftDown, column: 14, row: 1 }, &c, later);
    assert_eq!(app.active_tab, Tab::Mining);
    let much_later = later + Duration::from_secs(5);
    handle_mouse(&mut app, MouseEvent { kind: MouseKind::LeftDown, column: 2, row: 1 }, &c, much_later);
    assert_eq!(app.active_tab, Tab::Dashboard);
}

#[test]
fn double_click_copies_the_focused_text() {
    let mut app = App::new(AppConfig::default());
    let c = ctx();
    app.active_tab = Tab::Mining;
    let now = Instant::now();
    let ev = MouseEvent { kind: MouseKind::LeftDown, column: 40, row: 10 };
    let (_, first) = handle_mouse(&mut app, ev, &c, now);
    assert!(matches!(first, KeyAction::Nothing));
    let (_, second) = handle_mouse(&mut app, ev, &c, now + Duration::from_millis(100));
    match second {
        KeyAction::Copy(text) => assert_eq!(text, "kaspa:m1"),
        _ => panic!("expected a copy"),
    }
    let (_, third) = handle_mouse(&mut app, ev, &c, now + Duration::from_millis(2000));
    assert!(matches!(third, KeyAction::Nothing));
}

#[test]
fn scrolling_moves_the_mempool_selection() {
    let mut app = App::new(AppConfig::default());
    let c = ctx();
    app.active_tab = Tab::Mempool;
    let now = Instant::now();
    for _ in 0..5 {
        handle_mouse(&mut app, MouseEvent { kind: MouseKind::ScrollDown, column: 0, row: 5 }, &c, now);
    }
    assert_eq!(app.mempool_selected, 2);
    handle_mouse(&mut app, MouseEvent { kind: MouseKind::ScrollUp, column: 0, row: 5 }, &c, now);
    assert_eq!(app.mempool_selected, 1);
}

#[test]
fn double_click_follows_the_given_interval() {
    let c = ctx();
    let now = Instant::now();
    let ev = MouseEvent { kind: MouseKind::LeftDown, column: 40, row: 10 };
    let mut app = App::new(AppConfig::default());
    app.active_tab = Tab::Mempool;
    let (_, a) = handle_mouse_after(&mut app, ev, &c, now, Some(10));
    assert!(matches!(a, KeyAction::Nothing));
    assert!(app.last_click.is_some());
    let (_, a) = handle_mouse_after(&mut app, ev, &c, now, Some(399));
    match a {
        KeyAction::Copy(text) => assert_eq!(text, "tx0"),
        _ => panic!("expected a copy"),
    }
    assert_eq!(app.clipboard_flash, Some("Copied: tx0".to_string()));
    let (_, a) = handle_mouse_after(&mut app, ev, &c, now, Some(400));
    assert!(matches!(a, KeyAction::Nothing));
    let (_, a) = handle_mouse_after(&mut app, ev, &c, now, None);
    assert!(matches!(a, KeyAction::Nothing));
}
